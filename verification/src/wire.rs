//! Network byte order: reading and writing big-endian integers in byte buffers.
use vstd::prelude::*;

verus! {

/// The big-endian 16-bit value of the two bytes at `i`.
pub open spec fn be16(d: Seq<u8>, i: int) -> nat {
    (d[i] as nat) * 256 + (d[i + 1] as nat)
}

/// The big-endian 32-bit value of the four bytes at `i`.
pub open spec fn be32(d: Seq<u8>, i: int) -> nat {
    (d[i] as nat) * 16777216 + (d[i + 1] as nat) * 65536 + (d[i + 2] as nat) * 256 + (d[i + 3] as nat)
}

/// The two bytes of `v` in network order.
pub open spec fn u16_bytes(v: u16) -> Seq<u8> {
    seq![(v / 256) as u8, (v % 256) as u8]
}

/// The four bytes of `v` in network order.
pub open spec fn u32_bytes(v: u32) -> Seq<u8> {
    seq![(v / 16777216) as u8, ((v / 65536) % 256) as u8, ((v / 256) % 256) as u8, (v % 256) as u8]
}

/// The big-endian 64-bit value of the eight bytes at `i`.
pub open spec fn be64(d: Seq<u8>, i: int) -> nat {
    be32(d, i) * 4294967296 + be32(d, i + 4)
}

/// The concatenation of the network-order encodings of `s`.
pub open spec fn u32s_bytes(s: Seq<u32>) -> Seq<u8>
    decreases s.len(),
{
    if s.len() == 0 {
        Seq::empty()
    } else {
        u32s_bytes(s.drop_last()) + u32_bytes(s.last())
    }
}

/// `n` zero bytes.
pub open spec fn zeros(n: nat) -> Seq<u8> {
    Seq::new(n, |i: int| 0u8)
}

/// Reading back the encoding of a 16-bit value gives the value.
pub proof fn lemma_be16_bytes(v: u16)
    ensures
        be16(u16_bytes(v), 0) == v,
        u16_bytes(v).len() == 2,
{
    assert((v / 256) * 256 + v % 256 == v) by (nonlinear_arith);
}

/// Reading back the encoding of a 32-bit value gives the value.
pub proof fn lemma_be32_bytes(v: u32)
    ensures
        be32(u32_bytes(v), 0) == v,
        u32_bytes(v).len() == 4,
{
    let a = v / 16777216;
    let b = (v / 65536) % 256;
    let c = (v / 256) % 256;
    let d = v % 256;
    assert(a * 16777216 + b * 65536 + c * 256 + d == v) by (nonlinear_arith)
        requires
            a == v / 16777216,
            b == (v / 65536) % 256,
            c == (v / 256) % 256,
            d == v % 256,
    {
        assert(v / 65536 == a * 256 + b);
        assert(v / 256 == (v / 65536) * 256 + c);
        assert(v == (v / 256) * 256 + d);
    }
}

/// The bytes of a sequence of words, read back word by word.
pub proof fn lemma_u32s_bytes(s: Seq<u32>)
    ensures
        u32s_bytes(s).len() == 4 * s.len(),
        forall|k: int| 0 <= k < s.len() ==> be32(#[trigger] u32s_bytes(s), 4 * k) == s[k],
    decreases s.len(),
{
    if s.len() > 0 {
        lemma_u32s_bytes(s.drop_last());
        lemma_be32_bytes(s.last());
        let p = u32s_bytes(s.drop_last());
        let w = u32_bytes(s.last());
        assert forall|k: int| 0 <= k < s.len() implies be32(#[trigger] u32s_bytes(s), 4 * k) == s[k] by {
            if k < s.len() - 1 {
                assert(s.drop_last()[k] == s[k]);
                assert(be32(p, 4 * k) == s[k]);
            } else {
                assert(u32s_bytes(s)[4 * k] == w[0]);
                assert(u32s_bytes(s)[4 * k + 1] == w[1]);
                assert(u32s_bytes(s)[4 * k + 2] == w[2]);
                assert(u32s_bytes(s)[4 * k + 3] == w[3]);
            }
        }
    }
}

/// A word read past a prefix is read from what follows the prefix.
pub proof fn lemma_be32_skip(a: Seq<u8>, b: Seq<u8>, i: int)
    requires
        0 <= i,
        i + 4 <= b.len(),
    ensures
        be32(a + b, a.len() + i) == be32(b, i),
{
    assert((a + b)[a.len() + i] == b[i]);
    assert((a + b)[a.len() + i + 1] == b[i + 1]);
    assert((a + b)[a.len() + i + 2] == b[i + 2]);
    assert((a + b)[a.len() + i + 3] == b[i + 3]);
}

/// A word read before a suffix is read from what precedes the suffix.
pub proof fn lemma_be32_keep(a: Seq<u8>, b: Seq<u8>, i: int)
    requires
        0 <= i,
        i + 4 <= a.len(),
    ensures
        be32(a + b, i) == be32(a, i),
{
}

/// A 16-bit value read past a prefix is read from what follows the prefix.
pub proof fn lemma_be16_skip(a: Seq<u8>, b: Seq<u8>, i: int)
    requires
        0 <= i,
        i + 2 <= b.len(),
    ensures
        be16(a + b, a.len() + i) == be16(b, i),
{
    assert((a + b)[a.len() + i] == b[i]);
    assert((a + b)[a.len() + i + 1] == b[i + 1]);
}

/// Reads the big-endian 16-bit value at `i`.
pub fn read_u16(d: &[u8], i: usize) -> (v: u16)
    requires
        i + 2 <= d.len(),
    ensures
        v == be16(d@, i as int),
{
    (d[i] as u16) * 256 + (d[i + 1] as u16)
}

/// Reads the big-endian 32-bit value at `i`.
pub fn read_u32(d: &[u8], i: usize) -> (v: u32)
    requires
        i + 4 <= d.len(),
    ensures
        v == be32(d@, i as int),
{
    (d[i] as u32) * 16777216 + (d[i + 1] as u32) * 65536 + (d[i + 2] as u32) * 256 + (d[i + 3] as u32)
}

/// Reads the big-endian 64-bit value at `i`.
pub fn read_u64(d: &[u8], i: usize) -> (v: u64)
    requires
        i + 8 <= d.len(),
    ensures
        v == be64(d@, i as int),
{
    let hi = read_u32(d, i) as u64;
    let lo = read_u32(d, i + 4) as u64;
    assert(hi * 4294967296 + lo <= u64::MAX) by (nonlinear_arith)
        requires
            hi <= u32::MAX,
            lo <= u32::MAX,
    ;
    hi * 4294967296 + lo
}

/// Appends the network-order bytes of `v`.
pub fn push_u16(out: &mut Vec<u8>, v: u16)
    ensures
        final(out)@ == old(out)@ + u16_bytes(v),
{
    out.push((v / 256) as u8);
    out.push((v % 256) as u8);
    assert(final(out)@ =~= old(out)@ + u16_bytes(v));
}

/// Appends the network-order bytes of `v`.
pub fn push_u32(out: &mut Vec<u8>, v: u32)
    ensures
        final(out)@ == old(out)@ + u32_bytes(v),
{
    out.push((v / 16777216) as u8);
    out.push(((v / 65536) % 256) as u8);
    out.push(((v / 256) % 256) as u8);
    out.push((v % 256) as u8);
    assert(final(out)@ =~= old(out)@ + u32_bytes(v));
}

/// Appends the network-order bytes of each word of `s`.
pub fn push_u32s(out: &mut Vec<u8>, s: &[u32])
    ensures
        final(out)@ == old(out)@ + u32s_bytes(s@),
{
    let ghost start = out@;
    let mut i: usize = 0;
    while i < s.len()
        invariant
            i <= s.len(),
            out@ == start + u32s_bytes(s@.take(i as int)),
        decreases s.len() - i,
    {
        push_u32(out, s[i]);
        assert(s@.take(i + 1).drop_last() =~= s@.take(i as int));
        i += 1;
    }
    assert(s@.take(s.len() as int) =~= s@);
}

/// Appends the bytes of `s`.
pub fn push_bytes(out: &mut Vec<u8>, s: &[u8])
    ensures
        final(out)@ == old(out)@ + s@,
{
    let ghost start = out@;
    let mut i: usize = 0;
    while i < s.len()
        invariant
            i <= s.len(),
            out@ == start + s@.take(i as int),
        decreases s.len() - i,
    {
        out.push(s[i]);
        assert(s@.take(i + 1) =~= s@.take(i as int).push(s@[i as int]));
        i += 1;
    }
    assert(s@.take(s.len() as int) =~= s@);
}

/// Appends `n` zero bytes.
pub fn push_zeros(out: &mut Vec<u8>, n: usize)
    ensures
        final(out)@ == old(out)@ + zeros(n as nat),
{
    let ghost start = out@;
    let mut i: usize = 0;
    while i < n
        invariant
            i <= n,
            out@ == start + zeros(i as nat),
        decreases n - i,
    {
        out.push(0u8);
        assert(zeros((i + 1) as nat) =~= zeros(i as nat).push(0u8));
        i += 1;
    }
}

/// A copy of `d[from..to]`.
pub fn copy_range(d: &[u8], from: usize, to: usize) -> (r: Vec<u8>)
    requires
        from <= to <= d.len(),
    ensures
        r@ == d@.subrange(from as int, to as int),
{
    let mut r: Vec<u8> = Vec::new();
    let mut i = from;
    while i < to
        invariant
            from <= i <= to <= d.len(),
            r@ == d@.subrange(from as int, i as int),
        decreases to - i,
    {
        r.push(d[i]);
        assert(d@.subrange(from as int, i + 1) =~= d@.subrange(from as int, i as int).push(d@[i as int]));
        i += 1;
    }
    r
}

/// Reads `count` consecutive big-endian words starting at `at`.
pub fn read_u32s(d: &[u8], at: usize, count: usize) -> (r: Vec<u32>)
    requires
        at + 4 * count <= d.len(),
    ensures
        r.len() == count,
        forall|k: int| 0 <= k < count ==> r@[k] == be32(d@, at + 4 * k),
{
    let mut r: Vec<u32> = Vec::new();
    let mut k: usize = 0;
    while k < count
        invariant
            k <= count,
            at + 4 * count <= d.len(),
            r.len() == k,
            forall|j: int| 0 <= j < k ==> r@[j] == be32(d@, at + 4 * j),
        decreases count - k,
    {
        r.push(read_u32(d, at + 4 * k));
        k += 1;
    }
    r
}

} // verus!
