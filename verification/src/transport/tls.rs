//! SIP over TLS: stream framing by the end of the headers and `Content-Length`, and the
//! configuration of the two ends.
use crate::text::{
    chars_of, lower_seq, parse_uint, parse_uint_range, range_eq_lower, split_char, split_char_spans,
    trim_copy, trimmed,
};
use vstd::prelude::*;
use vstd::utf8::{decode_utf8, valid_utf8};

verus! {

/// Maximum SIP message size over TLS.
pub const MAX_TLS_SIZE: usize = 65536;

/// Whether `d` holds an empty line (`\r\n\r\n`) at position `i`.
pub open spec fn blank_line_at(d: Seq<u8>, i: int) -> bool {
    0 <= i && i + 4 <= d.len() && d[i] == 13u8 && d[i + 1] == 10u8 && d[i + 2] == 13u8 && d[i + 3] == 10u8
}

/// The position just after the first `\r\n\r\n` of `d`, if there is one.
#[verifier::opaque]
pub open spec fn header_end(d: Seq<u8>) -> Option<int> {
    if exists|i: int| blank_line_at(d, i) {
        let i = choose|i: int| blank_line_at(d, i) && forall|j: int| 0 <= j < i ==> !blank_line_at(d, j);
        Some(i + 4)
    } else {
        None
    }
}

proof fn lemma_first_blank(d: Seq<u8>, i: int)
    requires
        blank_line_at(d, i),
        forall|j: int| 0 <= j < i ==> !blank_line_at(d, j),
    ensures
        header_end(d) == Some(i + 4),
{
    reveal(header_end);
    let k = choose|k: int| blank_line_at(d, k) && forall|j: int| 0 <= j < k ==> !blank_line_at(d, j);
    assert(blank_line_at(d, k) && forall|j: int| 0 <= j < k ==> !blank_line_at(d, j));
    if k < i {
        assert(!blank_line_at(d, k));
    }
    if i < k {
        assert(!blank_line_at(d, i));
    }
}

/// Find the end of the SIP headers: the position just after the first empty line.
pub fn find_header_end(data: &[u8]) -> (r: Option<usize>)
    ensures
        match header_end(data@) {
            Some(k) => r matches Some(x) && x == k,
            None => r is None,
        },
        r matches Some(x) ==> 4 <= x <= data@.len(),
{
    let n = data.len();
    let mut i: usize = 0;
    while n >= 4 && i <= n - 4
        invariant
            n == data@.len(),
            forall|j: int| 0 <= j < i ==> !blank_line_at(data@, j),
        decreases n - i,
    {
        if data[i] == 13 && data[i + 1] == 10 && data[i + 2] == 13 && data[i + 3] == 10 {
            proof {
                lemma_first_blank(data@, i as int);
            }
            return Some(i + 4);
        }
        i += 1;
    }
    assert forall|j: int| !blank_line_at(data@, j) by {
        if 0 <= j < i {
        }
    }
    proof {
        reveal(header_end);
    }
    None
}

/// Whether std accepts `b` as UTF-8, and the text it then reads.
#[verifier::external_body]
fn utf8_str<'a>(b: &'a [u8]) -> (r: Option<&'a str>)
    ensures
        r is Some <==> valid_utf8(b@),
        r matches Some(s) ==> s@ == decode_utf8(b@),
{
    std::str::from_utf8(b).ok()
}

/// The length a header line gives, if it is a `Content-Length` (or compact `l`) line whose
/// value, between its first and second colon, is a number that fits a `usize`.
pub open spec fn line_content_length(line: Seq<char>) -> Option<nat> {
    let low = lower_seq(line);
    let named = (low.len() >= 15 && low.take(15) == "content-length:"@) || (low.len() >= 2 && low.take(2)
        == "l:"@);
    let parts = split_char(line, ':');
    if named && parts.len() >= 2 {
        parse_uint(trimmed(parts[1]), usize::MAX as nat)
    } else {
        None
    }
}

/// The first `Content-Length` of the lines `ls[i..]`, or 0.
pub open spec fn first_content_length(ls: Seq<Seq<char>>, i: int) -> nat
    decreases ls.len() - i,
{
    if i < 0 || i >= ls.len() {
        0
    } else {
        match line_content_length(ls[i]) {
            Some(n) => n,
            None => first_content_length(ls, i + 1),
        }
    }
}

/// The `Content-Length` that the headers `h` declare: that of the first line that gives one,
/// and 0 when none does or when `h` is not UTF-8.
pub open spec fn content_length(h: Seq<u8>) -> nat {
    if valid_utf8(h) {
        first_content_length(split_char(decode_utf8(h), '\n'), 0)
    } else {
        0
    }
}

/// Whether `v[from..to]` begins, ignoring ASCII case, with `w`.
fn starts_lower(v: &[char], from: usize, to: usize, w: &str) -> (b: bool)
    requires
        from <= to <= v.len(),
    ensures
        b == (lower_seq(v@.subrange(from as int, to as int)).len() >= w@.len() && lower_seq(
            v@.subrange(from as int, to as int),
        ).take(w@.len() as int) == w@),
{
    let wc = chars_of(w);
    let n = wc.len();
    if to - from < n {
        return false;
    }
    let b = range_eq_lower(v, from, from + n, w);
    assert(lower_seq(v@.subrange(from as int, to as int)).take(n as int) =~= lower_seq(
        v@.subrange(from as int, from + n),
    ));
    b
}

/// The `Content-Length` of one line `v[from..to]`.
fn line_length(v: &[char], from: usize, to: usize) -> (r: Option<usize>)
    requires
        from <= to <= v.len(),
    ensures
        match line_content_length(v@.subrange(from as int, to as int)) {
            Some(n) => r matches Some(x) && x == n,
            None => r is None,
        },
{
    let ghost line = v@.subrange(from as int, to as int);
    if !(starts_lower(v, from, to, "content-length:") || starts_lower(v, from, to, "l:")) {
        proof {
            reveal_strlit("content-length:");
            reveal_strlit("l:");
        }
        return None;
    }
    proof {
        reveal_strlit("content-length:");
        reveal_strlit("l:");
    }
    let parts = split_char_spans(v, from, to, ':');
    if parts.len() < 2 {
        return None;
    }
    let (p, q) = parts[1];
    let t = trim_copy(v, p, q);
    assert(t@.subrange(0, t@.len() as int) =~= t@);
    match parse_uint_range(t.as_slice(), 0, t.len(), usize::MAX as u64) {
        Some(n) => Some(n as usize),
        None => None,
    }
}

/// Parse the `Content-Length` that the headers declare (0 when there is none).
pub fn parse_content_length(headers: &[u8]) -> (n: usize)
    ensures
        n == content_length(headers@),
{
    let s = match utf8_str(headers) {
        Some(s) => s,
        None => return 0,
    };
    let v = chars_of(s);
    let spans = split_char_spans(v.as_slice(), 0, v.len(), '\n');
    let ghost ls = split_char(v@, '\n');
    assert(v@.subrange(0, v@.len() as int) =~= v@);
    let mut i: usize = 0;
    while i < spans.len()
        invariant
            i <= spans@.len(),
            ls == split_char(v@, '\n'),
            v@ == decode_utf8(headers@),
            valid_utf8(headers@),
            spans@.len() == ls.len(),
            forall|k: int| 0 <= k < spans@.len() ==> #[trigger] spans@[k].0 <= spans@[k].1 <= v@.len(),
            forall|k: int|
                0 <= k < spans@.len() ==> v@.subrange(#[trigger] spans@[k].0 as int, spans@[k].1 as int)
                    == ls[k],
            first_content_length(ls, 0) == first_content_length(ls, i as int),
        decreases spans.len() - i,
    {
        let (a, b) = spans[i];
        assert(v@.subrange(spans@[i as int].0 as int, spans@[i as int].1 as int) == ls[i as int]);
        match line_length(v.as_slice(), a, b) {
            Some(n) => return n,
            None => {},
        }
        i += 1;
    }
    0
}

/// The length of the first complete message in `data`: the headers up to the empty line and
/// the body that their `Content-Length` declares, once all of it has arrived.
pub open spec fn message_length(data: Seq<u8>) -> Option<nat> {
    match header_end(data) {
        None => None,
        Some(h) => {
            let total = h + content_length(data.take(h));
            if total <= data.len() {
                Some(total as nat)
            } else {
                None
            }
        },
    }
}

/// The length of the first complete message in the buffer, if it has fully arrived.
pub fn frame_length(data: &[u8]) -> (r: Option<usize>)
    ensures
        match message_length(data@) {
            Some(n) => r matches Some(x) && x == n,
            None => r is None,
        },
        r matches Some(x) ==> x <= data@.len(),
{
    let h = match find_header_end(data) {
        Some(h) => h,
        None => return None,
    };
    let head = vstd::slice::slice_subrange(data, 0, h);
    assert(head@ =~= data@.take(h as int));
    let cl = parse_content_length(head);
    if cl > data.len() - h {
        return None;
    }
    Some(h + cl)
}

/// Take the first complete message off the front of the buffer, if it has fully arrived.
pub fn take_message(buf: &mut Vec<u8>) -> (r: Option<Vec<u8>>)
    ensures
        match message_length(old(buf)@) {
            Some(n) => r matches Some(m) && m@ == old(buf)@.take(n as int) && final(buf)@ == old(
                buf,
            )@.skip(n as int),
            None => r is None && final(buf)@ == old(buf)@,
        },
{
    match frame_length(buf.as_slice()) {
        None => None,
        Some(n) => {
            let mut rest = buf.split_off(n);
            std::mem::swap(buf, &mut rest);
            Some(rest)
        },
    }
}

/// TLS configuration for server mode.
pub struct TlsServerConfig {
    /// Path to certificate file (PEM format).
    pub cert_path: String,
    /// Path to private key file (PEM format).
    pub key_path: String,
}

/// TLS configuration for client mode.
pub struct TlsClientConfig {
    /// Whether to verify server certificates.
    pub verify_server: bool,
    /// Optional CA certificate path for custom CAs.
    pub ca_cert_path: Option<String>,
}

impl Default for TlsClientConfig {
    fn default() -> (c: Self)
        ensures
            c.verify_server,
            c.ca_cert_path is None,
    {
        TlsClientConfig { verify_server: true, ca_cert_path: None }
    }
}

} // verus!
