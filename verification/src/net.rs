//! Network addresses held as plain values, with their text forms.

use crate::text::{dec, push_dec, push_str, string_of};
use vstd::prelude::*;

verus! {

/// An IP address: four octets for IPv4, sixteen for IPv6 (network order).
#[derive(Debug, Clone, Copy, PartialEq, Eq, Hash)]
pub enum IpAddr {
    /// IPv4 address.
    V4([u8; 4]),
    /// IPv6 address.
    V6([u8; 16]),
}

/// An IP address with a port.
#[derive(Debug, Clone, Copy, PartialEq, Eq, Hash)]
pub struct SocketAddr {
    /// Address.
    pub ip: IpAddr,
    /// Port.
    pub port: u16,
}

/// The dotted-quad text of four octets.
pub open spec fn ipv4_text(o: Seq<u8>) -> Seq<char> {
    dec(o[0] as nat) + seq!['.'] + dec(o[1] as nat) + seq!['.'] + dec(o[2] as nat) + seq!['.']
        + dec(o[3] as nat)
}

/// The lower-case hexadecimal digit for `d`.
pub open spec fn hex_char(d: nat) -> char {
    if d < 10 { crate::text::digit_char(d) } else if d == 10 { 'a' } else if d == 11 { 'b' }
    else if d == 12 { 'c' } else if d == 13 { 'd' } else if d == 14 { 'e' } else { 'f' }
}

/// The shortest lower-case hexadecimal spelling of `n` (`{:x}`).
pub open spec fn hex_text(n: nat) -> Seq<char>
    decreases n,
{
    if n < 16 { seq![hex_char(n)] } else { hex_text(n / 16).push(hex_char(n % 16)) }
}

/// The sixteen-bit groups of an IPv6 address.
pub open spec fn segments(o: Seq<u8>) -> Seq<nat> {
    Seq::new(8, |i: int| (o[2 * i] as nat) * 256 + o[2 * i + 1] as nat)
}

/// Groups `g[from..to]` in hexadecimal, joined by `:`.
pub open spec fn hex_groups(g: Seq<nat>, from: int, to: int) -> Seq<char>
    decreases to - from,
{
    if from >= to {
        seq![]
    } else if from + 1 == to {
        hex_text(g[from])
    } else {
        hex_groups(g, from, to - 1) + seq![':'] + hex_text(g[to - 1])
    }
}

/// The length of the run of zero groups starting at `i`.
pub open spec fn zero_run(g: Seq<nat>, i: int) -> nat
    decreases 8 - i,
{
    if 0 <= i < 8 && g[i] == 0 { 1 + zero_run(g, i + 1) } else { 0 }
}

/// The first longest run of zero groups among positions `i..8`, given the best `(start, len)` so far.
pub open spec fn longest_zero_run(g: Seq<nat>, i: int, best: (int, nat)) -> (int, nat)
    decreases 8 - i,
{
    if i >= 8 || i < 0 {
        best
    } else {
        let r = zero_run(g, i);
        let nb = if r > best.1 { (i, r) } else { best };
        longest_zero_run(g, i + 1, nb)
    }
}

/// The text of an IPv6 address as `Ipv6Addr`'s `Display` prints it: an IPv4-mapped address as
/// `::ffff:a.b.c.d`; otherwise hexadecimal groups, with the first longest run of two or more
/// zero groups written as `::`.
pub open spec fn ipv6_text(o: Seq<u8>) -> Seq<char> {
    let g = segments(o);
    if g[0] == 0 && g[1] == 0 && g[2] == 0 && g[3] == 0 && g[4] == 0 && g[5] == 0xffff {
        "::ffff:"@ + ipv4_text(o.subrange(12, 16))
    } else {
        let best = longest_zero_run(g, 0, (0, 0));
        if best.1 > 1 {
            hex_groups(g, 0, best.0) + "::"@ + hex_groups(g, best.0 + best.1, 8)
        } else {
            hex_groups(g, 0, 8)
        }
    }
}

impl IpAddr {
    /// The text of the address as `std::net::IpAddr`'s `Display` prints it.
    pub open spec fn text(self) -> Seq<char> {
        match self {
            IpAddr::V4(o) => ipv4_text(o@),
            IpAddr::V6(o) => ipv6_text(o@),
        }
    }

    /// Whether this is an IPv4 address.
    pub fn is_ipv4(&self) -> (b: bool)
        ensures
            b == (self is V4),
    {
        match self {
            IpAddr::V4(_) => true,
            IpAddr::V6(_) => false,
        }
    }

    /// Whether this is an IPv6 address.
    pub fn is_ipv6(&self) -> (b: bool)
        ensures
            b == (self is V6),
    {
        match self {
            IpAddr::V4(_) => false,
            IpAddr::V6(_) => true,
        }
    }

    /// Appends the text of the address to `v`.
    pub fn push_text(&self, v: &mut Vec<char>)
        ensures
            final(v)@ == old(v)@ + self.text(),
    {
        match self {
            IpAddr::V4(o) => push_ipv4(v, o),
            IpAddr::V6(o) => push_ipv6(v, o),
        }
    }

    /// The text of the address (`Display`).
    pub fn to_text(&self) -> (s: String)
        ensures
            s@ == self.text(),
    {
        let mut v: Vec<char> = Vec::new();
        self.push_text(&mut v);
        assert(v@ =~= self.text());
        string_of(v.as_slice())
    }

    /// Whether two addresses are the same.
    pub fn same(&self, other: &IpAddr) -> (b: bool)
        ensures
            b == (*self == *other),
    {
        match (*self, *other) {
            (IpAddr::V4(a), IpAddr::V4(b)) => {
                let r = a[0] == b[0] && a[1] == b[1] && a[2] == b[2] && a[3] == b[3];
                proof {
                    if r {
                        assert(a@ =~= b@);
                        assert(a == b);
                    } else {
                        assert(a@[0] != b@[0] || a@[1] != b@[1] || a@[2] != b@[2] || a@[3] != b@[3]);
                        assert(a@ != b@);
                    }
                }
                r
            },
            (IpAddr::V6(a), IpAddr::V6(b)) => {
                let mut i: usize = 0;
                while i < 16
                    invariant
                        i <= 16,
                        *self == IpAddr::V6(a),
                        *other == IpAddr::V6(b),
                        forall|k: int| 0 <= k < i ==> a@[k] == b@[k],
                    decreases 16 - i,
                {
                    if a[i] != b[i] {
                        assert(a@[i as int] != b@[i as int]);
                        assert(a@ != b@);
                        return false;
                    }
                    i += 1;
                }
                assert(a@ =~= b@);
                assert(a == b);
                true
            },
            _ => false,
        }
    }
}

impl SocketAddr {
    /// Create an address from an IP address and a port.
    pub fn new(ip: IpAddr, port: u16) -> (s: Self)
        ensures
            s.ip == ip,
            s.port == port,
    {
        SocketAddr { ip, port }
    }

    /// The IP address.
    pub fn ip(&self) -> (ip: IpAddr)
        ensures
            ip == self.ip,
    {
        self.ip
    }

    /// The port.
    pub fn port(&self) -> (p: u16)
        ensures
            p == self.port,
    {
        self.port
    }

    /// Whether the address is IPv6.
    pub fn is_ipv6(&self) -> (b: bool)
        ensures
            b == (self.ip is V6),
    {
        self.ip.is_ipv6()
    }

    /// The text of the address as `std::net::SocketAddr` displays it: `a.b.c.d:port`, or
    /// `[v6]:port`.
    pub open spec fn text(self) -> Seq<char> {
        match self.ip {
            IpAddr::V4(_) => self.ip.text() + seq![':'] + dec(self.port as nat),
            IpAddr::V6(_) => seq!['['] + self.ip.text() + "]:"@ + dec(self.port as nat),
        }
    }

    /// Appends the text of the address.
    pub fn push_text(&self, v: &mut Vec<char>)
        ensures
            final(v)@ == old(v)@ + self.text(),
    {
        let ghost start = v@;
        match self.ip {
            IpAddr::V4(_) => {
                self.ip.push_text(v);
                v.push(':');
            },
            IpAddr::V6(_) => {
                v.push('[');
                self.ip.push_text(v);
                push_str(v, "]:");
            },
        }
        push_dec(v, self.port as u64);
        assert(v@ =~= start + self.text());
    }

    /// The text of the address.
    pub fn to_text(&self) -> (s: String)
        ensures
            s@ == self.text(),
    {
        let mut v: Vec<char> = Vec::new();
        self.push_text(&mut v);
        assert(v@ =~= self.text());
        string_of(v.as_slice())
    }

    /// Whether two socket addresses are the same.
    pub fn same(&self, other: &SocketAddr) -> (b: bool)
        ensures
            b == (*self == *other),
    {
        self.port == other.port && self.ip.same(&other.ip)
    }
}

fn push_ipv4(v: &mut Vec<char>, o: &[u8; 4])
    ensures
        final(v)@ == old(v)@ + ipv4_text(o@),
{
    push_dec(v, o[0] as u64);
    v.push('.');
    push_dec(v, o[1] as u64);
    v.push('.');
    push_dec(v, o[2] as u64);
    v.push('.');
    push_dec(v, o[3] as u64);
    assert(final(v)@ =~= old(v)@ + ipv4_text(o@));
}

fn hex_digit(d: u64) -> (c: char)
    requires
        d < 16,
    ensures
        c == hex_char(d as nat),
{
    if d < 10 {
        if d == 0 { '0' } else if d == 1 { '1' } else if d == 2 { '2' } else if d == 3 { '3' }
        else if d == 4 { '4' } else if d == 5 { '5' } else if d == 6 { '6' } else if d == 7 { '7' }
        else if d == 8 { '8' } else { '9' }
    } else if d == 10 { 'a' } else if d == 11 { 'b' } else if d == 12 { 'c' } else if d == 13 { 'd' }
    else if d == 14 { 'e' } else { 'f' }
}

/// Appends `n` in hexadecimal (`{:x}`).
pub(crate) fn push_hex(v: &mut Vec<char>, n: u64)
    ensures
        final(v)@ == old(v)@ + hex_text(n as nat),
    decreases n,
{
    if n >= 16 {
        push_hex(v, n / 16);
    }
    v.push(hex_digit(n % 16));
    proof {
        if n >= 16 {
            assert(old(v)@ + hex_text(n as nat) =~= old(v)@ + hex_text((n / 16) as nat) + seq![hex_char((n % 16) as nat)]);
        } else {
            assert(old(v)@ + hex_text(n as nat) =~= old(v)@.push(hex_char((n % 16) as nat)));
        }
    }
}

fn push_groups(v: &mut Vec<char>, g: &[u16; 8], from: usize, to: usize, Ghost(gs): Ghost<Seq<nat>>)
    requires
        from <= to <= 8,
        gs.len() == 8,
        forall|i: int| 0 <= i < 8 ==> gs[i] == g@[i] as nat,
    ensures
        final(v)@ == old(v)@ + hex_groups(gs, from as int, to as int),
{
    let mut i = from;
    while i < to
        invariant
            from <= i <= to <= 8,
            gs.len() == 8,
            forall|k: int| 0 <= k < 8 ==> gs[k] == g@[k] as nat,
            v@ == old(v)@ + hex_groups(gs, from as int, i as int),
        decreases to - i,
    {
        if i > from {
            v.push(':');
        }
        push_hex(v, g[i] as u64);
        proof {
            if i > from {
                assert(hex_groups(gs, from as int, i + 1) == hex_groups(gs, from as int, i as int) + seq![':'] + hex_text(gs[i as int]));
            }
            assert(v@ =~= old(v)@ + hex_groups(gs, from as int, i + 1));
        }
        i += 1;
    }
}

proof fn lemma_zero_run_bound(g: Seq<nat>, i: int)
    requires
        0 <= i <= 8,
    ensures
        zero_run(g, i) <= 8 - i,
    decreases 8 - i,
{
    if i < 8 && g[i] == 0 {
        lemma_zero_run_bound(g, i + 1);
    }
}

proof fn lemma_longest_bound(g: Seq<nat>, i: int, best: (int, nat))
    requires
        0 <= i <= 8,
        0 <= best.0 <= 8,
        best.0 + best.1 <= 8,
    ensures
        0 <= longest_zero_run(g, i, best).0 <= 8,
        longest_zero_run(g, i, best).0 + longest_zero_run(g, i, best).1 <= 8,
    decreases 8 - i,
{
    if i < 8 {
        lemma_zero_run_bound(g, i);
        let r = zero_run(g, i);
        let nb = if r > best.1 { (i, r) } else { best };
        lemma_longest_bound(g, i + 1, nb);
    }
}

fn push_ipv6(v: &mut Vec<char>, o: &[u8; 16])
    ensures
        final(v)@ == old(v)@ + ipv6_text(o@),
{
    let ghost gs = segments(o@);
    let mut g: [u16; 8] = [0u16; 8];
    let mut i: usize = 0;
    while i < 8
        invariant
            i <= 8,
            gs == segments(o@),
            forall|k: int| 0 <= k < i ==> gs[k] == g@[k] as nat,
        decreases 8 - i,
    {
        g[i] = (o[2 * i] as u16) * 256 + (o[2 * i + 1] as u16);
        i += 1;
    }
    if g[0] == 0 && g[1] == 0 && g[2] == 0 && g[3] == 0 && g[4] == 0 && g[5] == 0xffff {
        push_str(v, "::ffff:");
        let tail: [u8; 4] = [o[12], o[13], o[14], o[15]];
        assert(tail@ =~= o@.subrange(12, 16));
        push_ipv4(v, &tail);
        proof {
            reveal_strlit("::ffff:");
            assert(final(v)@ =~= old(v)@ + ipv6_text(o@));
        }
        return;
    }
    // find the first longest run of zero groups
    let mut best_start: usize = 0;
    let mut best_len: usize = 0;
    let mut j: usize = 0;
    while j < 8
        invariant
            j <= 8,
            best_start <= 8,
            best_start + best_len <= 8,
            forall|k: int| 0 <= k < 8 ==> gs[k] == g@[k] as nat,
            longest_zero_run(gs, 0, (0, 0)) == longest_zero_run(gs, j as int, (best_start as int, best_len as nat)),
        decreases 8 - j,
    {
        let mut r: usize = 0;
        while j + r < 8 && g[j + r] == 0
            invariant
                j < 8,
                j + r <= 8,
                forall|k: int| 0 <= k < 8 ==> gs[k] == g@[k] as nat,
                zero_run(gs, j as int) == r + zero_run(gs, (j + r) as int),
            decreases 8 - j - r,
        {
            r += 1;
        }
        assert(zero_run(gs, j as int) == r);
        if r > best_len {
            best_start = j;
            best_len = r;
        }
        j += 1;
    }
    proof {
        lemma_longest_bound(gs, 0, (0, 0));
    }
    if best_len > 1 {
        push_groups(v, &g, 0, best_start, Ghost(gs));
        v.push(':');
        v.push(':');
        push_groups(v, &g, best_start + best_len, 8, Ghost(gs));
        proof {
            reveal_strlit("::");
            assert(final(v)@ =~= old(v)@ + ipv6_text(o@));
        }
    } else {
        push_groups(v, &g, 0, 8, Ghost(gs));
    }
}

} // verus!

verus! {

/// Whether `p` is the text of one IPv4 octet as `Ipv4Addr`'s parser accepts it:
/// one to three digits, no leading zero, at most 255.
pub open spec fn octet_text_ok(p: Seq<char>) -> bool {
    &&& 1 <= p.len() <= 3
    &&& crate::text::all_digits(p)
    &&& crate::text::digits_val(p) <= 255
    &&& !(p.len() > 1 && p[0] == '0')
}

/// The IPv4 address that `s` spells as dotted-quad text (as `Ipv4Addr::from_str` reads it).
#[verifier::opaque]
pub open spec fn parse_ipv4(s: Seq<char>) -> Option<Seq<u8>> {
    let fa = crate::text::find_from(s, '.', 0);
    if fa is None {
        None
    } else {
        let a = fa->0;
        let fb = crate::text::find_from(s, '.', a + 1);
        if fb is None {
            None
        } else {
            let b = fb->0;
            let fc = crate::text::find_from(s, '.', b + 1);
            if fc is None {
                None
            } else {
                let c = fc->0;
                if crate::text::find_from(s, '.', c + 1) is Some {
                    None
                } else {
                    let p0 = s.subrange(0, a);
                    let p1 = s.subrange(a + 1, b);
                    let p2 = s.subrange(b + 1, c);
                    let p3 = s.subrange(c + 1, s.len() as int);
                    if octet_text_ok(p0) && octet_text_ok(p1) && octet_text_ok(p2) && octet_text_ok(p3) {
                        Some(seq![
                            crate::text::digits_val(p0) as u8,
                            crate::text::digits_val(p1) as u8,
                            crate::text::digits_val(p2) as u8,
                            crate::text::digits_val(p3) as u8,
                        ])
                    } else {
                        None
                    }
                }
            }
        }
    }
}

fn parse_octet(s: &[char], from: usize, to: usize) -> (r: Option<u8>)
    requires
        from <= to <= s.len(),
    ensures
        r matches Some(v) ==> octet_text_ok(s@.subrange(from as int, to as int))
            && v as nat == crate::text::digits_val(s@.subrange(from as int, to as int)),
        r is None ==> !octet_text_ok(s@.subrange(from as int, to as int)),
{
    reveal(crate::text::parse_uint);
    let ghost p = s@.subrange(from as int, to as int);
    if to - from < 1 || to - from > 3 {
        return None;
    }
    if to - from > 1 && s[from] == '0' {
        assert(p[0] == '0');
        return None;
    }
    if s[from] == '+' {
        assert(!crate::text::is_digit(p[0]));
        return None;
    }
    match crate::text::parse_uint_range(s, from, to, 255) {
        Some(v) => {
            assert(p.len() > 0 && p[0] != '+');
            Some(v as u8)
        },
        None => {
            assert(p.len() > 0 && p[0] != '+');
            None
        },
    }
}

/// Reads dotted-quad IPv4 text from `s[from..to]`.
pub fn parse_ipv4_range(s: &[char], from: usize, to: usize) -> (r: Option<[u8; 4]>)
    requires
        from <= to <= s.len(),
    ensures
        r matches Some(o) ==> parse_ipv4(s@.subrange(from as int, to as int)) == Some(o@),
        r is None ==> parse_ipv4(s@.subrange(from as int, to as int)) is None,
{
    reveal(parse_ipv4);
    let ghost t = s@.subrange(from as int, to as int);
    let mut v: Vec<char> = Vec::new();
    let mut k = from;
    while k < to
        invariant
            from <= k <= to <= s.len(),
            v@ == s@.subrange(from as int, k as int),
        decreases to - k,
    {
        v.push(s[k]);
        assert(v@ =~= s@.subrange(from as int, k + 1));
        k += 1;
    }
    assert(v@ == t);
    let n = v.len();
    assert(v@.subrange(0, n as int) =~= v@);
    let a = match crate::text::find_char(v.as_slice(), 0, n, '.') { Some(a) => a, None => return None };
    assert(v@.subrange(0, n as int) =~= v@);
    let b = match crate::text::find_char(v.as_slice(), a + 1, n, '.') { Some(b) => b, None => return None };
    let c = match crate::text::find_char(v.as_slice(), b + 1, n, '.') { Some(c) => c, None => return None };
    if crate::text::find_char(v.as_slice(), c + 1, n, '.').is_some() {
        return None;
    }
    let o0 = match parse_octet(v.as_slice(), 0, a) { Some(x) => x, None => return None };
    let o1 = match parse_octet(v.as_slice(), a + 1, b) { Some(x) => x, None => return None };
    let o2 = match parse_octet(v.as_slice(), b + 1, c) { Some(x) => x, None => return None };
    let o3 = match parse_octet(v.as_slice(), c + 1, n) { Some(x) => x, None => return None };
    let r: [u8; 4] = [o0, o1, o2, o3];
    assert(r@ =~= parse_ipv4(t)->0);
    Some(r)
}

} // verus!

verus! {

/// The value of `c` as a digit in base 16 (`hex`) or base 10.
pub open spec fn digit_in(c: char, hex: bool) -> Option<nat> {
    if '0' <= c <= '9' {
        Some((c as int - '0' as int) as nat)
    } else if hex && 'a' <= c <= 'f' {
        Some((c as int - 'a' as int + 10) as nat)
    } else if hex && 'A' <= c <= 'F' {
        Some((c as int - 'A' as int + 10) as nat)
    } else {
        None
    }
}

/// The end of the run of digits that starts at `p`.
pub open spec fn run_end(s: Seq<char>, p: int, hex: bool) -> int
    decreases s.len() - p,
{
    if 0 <= p < s.len() && digit_in(s[p], hex) is Some { run_end(s, p + 1, hex) } else { p }
}

/// The value of the digits `s[p..e]`.
pub open spec fn run_value(s: Seq<char>, p: int, e: int, hex: bool) -> nat
    decreases e - p,
{
    if e <= p {
        0
    } else {
        run_value(s, p, e - 1, hex) * (if hex { 16nat } else { 10nat }) + digit_in(s[e - 1], hex)->0
    }
}

/// One number as the address parser of `std::net` reads it at `p`: the whole run of digits,
/// at most `max_digits` of them, no leading zero unless allowed, no larger than `max`.
/// Gives the value and the position after it.
pub open spec fn read_number(s: Seq<char>, p: int, hex: bool, max_digits: nat, zero_prefix: bool, max: nat) -> Option<(nat, int)> {
    let e = run_end(s, p, hex);
    let n = e - p;
    if n <= 0 || n > max_digits || (!zero_prefix && s[p] == '0' && n > 1) || run_value(s, p, e, hex) > max {
        None
    } else {
        Some((run_value(s, p, e, hex), e))
    }
}

/// An IPv4 address read at `p` (four decimal octets joined by `.`), and the position after it.
pub open spec fn read_ipv4_at(s: Seq<char>, p: int) -> Option<(Seq<u8>, int)> {
    match read_number(s, p, false, 3, false, 255) {
        None => None,
        Some((va, pa)) => if !(pa < s.len() && s[pa] == '.') { None } else {
            match read_number(s, pa + 1, false, 3, false, 255) {
                None => None,
                Some((vb, pb)) => if !(pb < s.len() && s[pb] == '.') { None } else {
                    match read_number(s, pb + 1, false, 3, false, 255) {
                        None => None,
                        Some((vc, pc)) => if !(pc < s.len() && s[pc] == '.') { None } else {
                            match read_number(s, pc + 1, false, 3, false, 255) {
                                None => None,
                                Some((vd, pd)) => Some((seq![va as u8, vb as u8, vc as u8, vd as u8], pd)),
                            }
                        },
                    }
                },
            }
        },
    }
}

/// The `i`-th item of a `:`-separated list: a separator first unless `i` is 0.
pub open spec fn after_sep(s: Seq<char>, p: int, i: int) -> Option<int> {
    if i == 0 { Some(p) } else if 0 <= p < s.len() && s[p] == ':' { Some(p + 1) } else { None }
}

/// Groups of an IPv6 address read from `p`, the `i`-th of at most `limit`, after `acc`:
/// the groups, the position after them, and whether they ended in an embedded IPv4 address.
pub open spec fn read_groups(s: Seq<char>, p: int, i: int, limit: int, acc: Seq<nat>) -> (Seq<nat>, int, bool)
    decreases limit - i,
{
    if i >= limit {
        (acc, p, false)
    } else {
        match after_sep(s, p, i) {
            None => (acc, p, false),
            Some(q) => {
                let v4 = if i < limit - 1 { read_ipv4_at(s, q) } else { None };
                match v4 {
                    Some((o, e)) => (acc.push((o[0] as nat) * 256 + o[1] as nat).push((o[2] as nat) * 256 + o[3] as nat), e, true),
                    None => match read_number(s, q, true, 4, true, 0xffff) {
                        None => (acc, p, false),
                        Some((g, e)) => read_groups(s, e, i + 1, limit, acc.push(g)),
                    },
                }
            },
        }
    }
}

/// The sixteen bytes of eight groups.
pub open spec fn groups_bytes(g: Seq<nat>) -> Seq<u8> {
    Seq::new(16, |k: int| if k % 2 == 0 { (g[k / 2] / 256) as u8 } else { (g[k / 2] % 256) as u8 })
}

/// The IPv6 address that `s` spells, as `Ipv6Addr::from_str` reads it: up to eight groups of one
/// to four hexadecimal digits joined by `:`, where one `::` stands for a run of zero groups and the
/// last two groups may be written as a dotted-quad IPv4 address.
pub open spec fn parse_ipv6(s: Seq<char>) -> Option<Seq<u8>> {
    let (head, p, h4) = read_groups(s, 0, 0, 8, seq![]);
    if head.len() == 8 {
        if p == s.len() { Some(groups_bytes(head)) } else { None }
    } else if h4 {
        None
    } else if !(p < s.len() && p + 1 < s.len() && s[p] == ':' && s[p + 1] == ':') {
        None
    } else {
        let (tail, q, t4) = read_groups(s, p + 2, 0, 7 - head.len(), seq![]);
        if q == s.len() {
            Some(groups_bytes(head + Seq::new((8 - head.len() - tail.len()) as nat, |k: int| 0nat) + tail))
        } else {
            None
        }
    }
}

/// An address as plain values: whether it is IPv4, and its octets.
pub open spec fn ip_view(ip: IpAddr) -> (bool, Seq<u8>) {
    match ip {
        IpAddr::V4(o) => (true, o@),
        IpAddr::V6(o) => (false, o@),
    }
}

/// The IP address that `s` spells, as `IpAddr::from_str` reads it (see `ip_view`).
#[verifier::opaque]
pub open spec fn parse_ip(s: Seq<char>) -> Option<(bool, Seq<u8>)> {
    match parse_ipv4(s) {
        Some(o) => Some((true, o)),
        None => match parse_ipv6(s) {
            Some(o) => Some((false, o)),
            None => None,
        },
    }
}

/// The numbers `v` as mathematical naturals.
pub open spec fn nats(v: Seq<u16>) -> Seq<nat> {
    Seq::new(v.len(), |i: int| v[i] as nat)
}

fn digit_of(c: char, hex: bool) -> (r: Option<u32>)
    ensures
        r matches Some(v) ==> digit_in(c, hex) == Some(v as nat) && v < 16,
        r is None ==> digit_in(c, hex) is None,
{
    if '0' <= c && c <= '9' {
        Some(c as u32 - '0' as u32)
    } else if hex && 'a' <= c && c <= 'f' {
        Some(c as u32 - 'a' as u32 + 10)
    } else if hex && 'A' <= c && c <= 'F' {
        Some(c as u32 - 'A' as u32 + 10)
    } else {
        None
    }
}

proof fn lemma_run_end_bounds(s: Seq<char>, p: int, hex: bool)
    requires
        0 <= p <= s.len(),
    ensures
        p <= run_end(s, p, hex) <= s.len(),
        forall|k: int| p <= k < run_end(s, p, hex) ==> digit_in(#[trigger] s[k], hex) is Some,
    decreases s.len() - p,
{
    if p < s.len() && digit_in(s[p], hex) is Some {
        lemma_run_end_bounds(s, p + 1, hex);
    }
}

/// An upper bound on a run of `n` digits.
spec fn cap(n: int, hex: bool) -> nat
    decreases n,
{
    if n <= 0 { 1 } else { cap(n - 1, hex) * (if hex { 16nat } else { 10nat }) }
}

proof fn lemma_cap_small(n: int, hex: bool)
    requires
        0 <= n <= 4,
    ensures
        cap(n, hex) <= 65536,
{
    reveal_with_fuel(cap, 5);
}

fn read_number_exec(s: &[char], p: usize, hex: bool, max_digits: usize, zero_prefix: bool, max: u32) -> (r: Option<(u32, usize)>)
    requires
        p <= s.len(),
        max_digits <= 4,
    ensures
        r matches Some((v, e)) ==> read_number(s@, p as int, hex, max_digits as nat, zero_prefix, max as nat) == Some((v as nat, e as int)),
        r is None ==> read_number(s@, p as int, hex, max_digits as nat, zero_prefix, max as nat) is None,
        r matches Some((v, e)) ==> p < e <= s.len(),
{
    let mut e = p;
    let mut val: u32 = 0;
    proof { lemma_run_end_bounds(s@, p as int, hex); }
    while e < s.len()
        invariant
            p <= e <= s.len(),
            run_end(s@, p as int, hex) == run_end(s@, e as int, hex),
            e - p <= max_digits,
            max_digits <= 4,
            val as nat == run_value(s@, p as int, e as int, hex),
            val < cap(e - p, hex),
        ensures
            p <= e <= s.len(),
            run_end(s@, p as int, hex) == run_end(s@, e as int, hex),
            e - p <= max_digits,
            val as nat == run_value(s@, p as int, e as int, hex),
            e == s.len() || digit_in(s@[e as int], hex) is None,
        decreases s.len() - e,
    {
        match digit_of(s[e], hex) {
            Some(d) => {
                if e - p == max_digits {
                    proof {
                        lemma_run_end_bounds(s@, e as int + 1, hex);
                    }
                    return None;
                }
                let base: u32 = if hex { 16 } else { 10 };
                proof {
                    lemma_cap_small(e - p, hex);
                    let c = cap(e - p, hex);
                    assert(val * base + d < c * base) by (nonlinear_arith)
                        requires val < c, d < base;
                    assert(c * base <= 65536 * 16) by (nonlinear_arith)
                        requires c <= 65536, base <= 16;
                    assert(cap(e - p + 1, hex) == c * base);
                }
                val = val * base + d;
                e += 1;
            },
            None => {
                break;
            },
        }
    }
    assert(run_end(s@, e as int, hex) == e);
    if e == p {
        return None;
    }
    if !zero_prefix && s[p] == '0' && e - p > 1 {
        return None;
    }
    if val > max {
        return None;
    }
    Some((val, e))
}

fn read_ipv4_exec(s: &[char], p: usize) -> (r: Option<([u8; 4], usize)>)
    requires
        p <= s.len(),
    ensures
        r matches Some((o, e)) ==> read_ipv4_at(s@, p as int) == Some((o@, e as int)) && p < e <= s.len(),
        r is None ==> read_ipv4_at(s@, p as int) is None,
{
    let (va, pa) = match read_number_exec(s, p, false, 3, false, 255) { Some(x) => x, None => return None };
    if !(pa < s.len() && s[pa] == '.') { return None; }
    let (vb, pb) = match read_number_exec(s, pa + 1, false, 3, false, 255) { Some(x) => x, None => return None };
    if !(pb < s.len() && s[pb] == '.') { return None; }
    let (vc, pc) = match read_number_exec(s, pb + 1, false, 3, false, 255) { Some(x) => x, None => return None };
    if !(pc < s.len() && s[pc] == '.') { return None; }
    let (vd, pd) = match read_number_exec(s, pc + 1, false, 3, false, 255) { Some(x) => x, None => return None };
    let o: [u8; 4] = [va as u8, vb as u8, vc as u8, vd as u8];
    assert(o@ =~= seq![va as u8, vb as u8, vc as u8, vd as u8]);
    Some((o, pd))
}

fn read_groups_exec(s: &[char], p: usize, limit: usize, g: &mut Vec<u16>) -> (r: (usize, bool))
    requires
        p <= s.len(),
        limit <= 8,
        old(g)@.len() == 0,
    ensures
        read_groups(s@, p as int, 0, limit as int, seq![]) == (
            nats(final(g)@), r.0 as int, r.1),
        final(g)@.len() <= limit,
        p <= r.0 <= s.len(),
{
    let mut pos = p;
    let mut i: usize = 0;
    assert(nats(g@) =~= seq![]);
    while i < limit
        invariant
            p <= pos <= s.len(),
            i <= limit <= 8,
            g@.len() == i,
            read_groups(s@, p as int, 0, limit as int, seq![])
                == read_groups(s@, pos as int, i as int, limit as int, nats(g@)),
        decreases limit - i,
    {
        let q = if i == 0 {
            pos
        } else if pos < s.len() && s[pos] == ':' {
            pos + 1
        } else {
            return (pos, false);
        };
        if i + 1 < limit {
            match read_ipv4_exec(s, q) {
                Some((o, e)) => {
                    let ghost before = nats(g@);
                    g.push((o[0] as u16) * 256 + o[1] as u16);
                    g.push((o[2] as u16) * 256 + o[3] as u16);
                    assert(nats(g@) =~= before.push((o@[0] as nat) * 256 + o@[1] as nat).push((o@[2] as nat) * 256 + o@[3] as nat));
                    return (e, true);
                },
                None => {},
            }
        }
        match read_number_exec(s, q, true, 4, true, 0xffff) {
            None => return (pos, false),
            Some((v, e)) => {
                let ghost before = nats(g@);
                g.push(v as u16);
                assert(nats(g@) =~= before.push(v as nat));
                pos = e;
            },
        }
        i += 1;
    }
    (pos, false)
}

/// Reads an IPv6 address from `s[..to]` as `Ipv6Addr::from_str` does.
fn parse_ipv6_exec(s: &[char]) -> (r: Option<[u8; 16]>)
    ensures
        r matches Some(o) ==> parse_ipv6(s@) == Some(o@),
        r is None ==> parse_ipv6(s@) is None,
{
    let mut head: Vec<u16> = Vec::new();
    let (p, h4) = read_groups_exec(s, 0, 8, &mut head);
    let mut groups: Vec<u16> = Vec::new();
    if head.len() == 8 {
        if p != s.len() {
            return None;
        }
        groups = head;
    } else {
        if h4 {
            return None;
        }
        if !(p < s.len() && p + 1 < s.len() && s[p] == ':' && s[p + 1] == ':') {
            return None;
        }
        let mut tail: Vec<u16> = Vec::new();
        let (q, _t4) = read_groups_exec(s, p + 2, 7 - head.len(), &mut tail);
        if q != s.len() {
            return None;
        }
        let ghost hv = nats(head@);
        let ghost tv = nats(tail@);
        let zeros = 8 - head.len() - tail.len();
        let mut k: usize = 0;
        while k < head.len()
            invariant
                k <= head.len(),
                nats(groups@) == hv.take(k as int),
                hv == nats(head@),
            decreases head.len() - k,
        {
            let ghost old_g = groups@;
            groups.push(head[k]);
            proof {
                assert(nats(old_g).len() == k);
                assert forall|j: int| 0 <= j < k + 1 implies #[trigger] nats(groups@)[j] == hv.take(k + 1)[j] by {
                    if j < k {
                        assert(nats(old_g)[j] == hv.take(k as int)[j]);
                    }
                }
                assert(nats(groups@) =~= hv.take(k + 1));
            }
            k += 1;
        }
        let mut z: usize = 0;
        while z < zeros
            invariant
                z <= zeros,
                nats(groups@) == hv + Seq::new(z as nat, |j: int| 0nat),
                hv.len() == head.len(),
            decreases zeros - z,
        {
            let ghost old_g = groups@;
            groups.push(0);
            proof {
                let zs = Seq::new(z as nat, |j: int| 0nat);
                let zs1 = Seq::new((z + 1) as nat, |j: int| 0nat);
                assert(nats(old_g).len() == hv.len() + z);
                assert forall|j: int| 0 <= j < hv.len() + z + 1 implies #[trigger] nats(groups@)[j] == (hv + zs1)[j] by {
                    if j < hv.len() + z {
                        assert(nats(old_g)[j] == (hv + zs)[j]);
                    }
                }
                assert(nats(groups@) =~= hv + zs1);
            }
            z += 1;
        }
        let mut t: usize = 0;
        while t < tail.len()
            invariant
                t <= tail.len(),
                tv == nats(tail@),
                nats(groups@) == hv + Seq::new(zeros as nat, |j: int| 0nat) + tv.take(t as int),
            decreases tail.len() - t,
        {
            let ghost old_g = groups@;
            groups.push(tail[t]);
            proof {
                let zs = Seq::new(zeros as nat, |j: int| 0nat);
                let pre = hv + zs;
                assert(nats(old_g).len() == pre.len() + t);
                assert forall|j: int| 0 <= j < pre.len() + t + 1 implies #[trigger] nats(groups@)[j] == (pre + tv.take(t + 1))[j] by {
                    if j < pre.len() + t {
                        assert(nats(old_g)[j] == (pre + tv.take(t as int))[j]);
                    }
                }
                assert(nats(groups@) =~= pre + tv.take(t + 1));
            }
            t += 1;
        }
        assert(tv.take(tail.len() as int) =~= tv);
    }
    assert(groups@.len() == 8);
    let ghost gv = nats(groups@);
    let mut out: [u8; 16] = [0u8; 16];
    let mut j: usize = 0;
    while j < 8
        invariant
            j <= 8,
            groups@.len() == 8,
            gv == nats(groups@),
            forall|k: int| 0 <= k < 2 * j ==> out@[k] == groups_bytes(gv)[k],
        decreases 8 - j,
    {
        out[2 * j] = (groups[j] / 256) as u8;
        out[2 * j + 1] = (groups[j] % 256) as u8;
        j += 1;
    }
    assert(out@ =~= groups_bytes(gv));
    Some(out)
}

/// Reads the IP address spelled by `s[from..to]`, as `IpAddr::from_str` does.
pub fn parse_ip_range(s: &[char], from: usize, to: usize) -> (r: Option<IpAddr>)
    requires
        from <= to <= s.len(),
    ensures
        r is Some <==> parse_ip(s@.subrange(from as int, to as int)) is Some,
        r matches Some(ip) ==> ip_view(ip) == parse_ip(s@.subrange(from as int, to as int))->0,
{
    reveal(parse_ip);
    match parse_ipv4_range(s, from, to) {
        Some(o) => {
            return Some(IpAddr::V4(o));
        },
        None => {},
    }
    let mut v: Vec<char> = Vec::new();
    let mut k = from;
    while k < to
        invariant
            from <= k <= to <= s.len(),
            v@ == s@.subrange(from as int, k as int),
        decreases to - k,
    {
        v.push(s[k]);
        assert(v@ =~= s@.subrange(from as int, k + 1));
        k += 1;
    }
    match parse_ipv6_exec(v.as_slice()) {
        Some(o) => Some(IpAddr::V6(o)),
        None => None,
    }
}

/// Reads the IP address spelled by `s`, as `IpAddr::from_str` does.
pub fn parse_ip_str(s: &str) -> (r: Option<IpAddr>)
    ensures
        r is Some <==> parse_ip(s@) is Some,
        r matches Some(ip) ==> ip_view(ip) == parse_ip(s@)->0,
{
    let c = crate::text::chars_of(s);
    assert(c@.subrange(0, c@.len() as int) =~= c@);
    parse_ip_range(c.as_slice(), 0, c.len())
}

} // verus!
