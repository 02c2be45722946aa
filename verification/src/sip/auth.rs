//! SIP Digest Authentication per RFC 2617 and RFC 3261.
//!
//! Provides parsing of WWW-Authenticate/Proxy-Authenticate headers
//! and generation of Authorization/Proxy-Authorization headers. The hashing is MD5 from the
//! `md5` crate, written out in lower-case hexadecimal by the `hex` crate.
use crate::net::hex_char;
use crate::text::{
    chars_of, copy_chars, find_from, is_ws, lower_seq, push_chars, push_str, skip_ws, string_of, trim_bounds,
};
use vstd::prelude::*;
use vstd::utf8::encode_utf8;

verus! {

/// The MD5 digest that `md5::compute` gives for a byte sequence.
pub uninterp spec fn md5_of(data: Seq<u8>) -> Seq<u8>;

/// `md5::compute`: the 16-byte MD5 digest of `data`, a function of the bytes alone.
#[verifier::external_body]
fn md5_digest(data: &[u8]) -> (d: [u8; 16])
    ensures
        d@ == md5_of(data@),
{
    md5::compute(data).0
}

/// The lower-case hexadecimal spelling of bytes, two digits per byte, high nibble first.
pub open spec fn hex_bytes(b: Seq<u8>) -> Seq<char>
    decreases b.len(),
{
    if b.len() == 0 {
        Seq::empty()
    } else {
        hex_bytes(b.drop_last()) + seq![hex_char((b.last() / 16) as nat), hex_char((b.last() % 16) as nat)]
    }
}

/// `hex::encode`: each byte as two lower-case hexadecimal digits, high nibble first (the
/// crate's `HEX_CHARS_LOWER` table indexed by `byte >> 4`, then `byte & 0x0f`).
#[verifier::external_body]
fn hex_encode(data: &[u8]) -> (s: String)
    ensures
        s@ == hex_bytes(data@),
{
    hex::encode(data)
}

/// The last `k` hexadecimal digits of `n`, zero-padded (`{:0kx}` for `n < 16^k`).
pub open spec fn hex_fixed(n: nat, k: nat) -> Seq<char>
    decreases k,
{
    if k == 0 {
        Seq::empty()
    } else {
        hex_fixed(n / 16, (k - 1) as nat).push(hex_char(n % 16))
    }
}

fn hex_digit(d: u64) -> (c: char)
    requires
        d < 16,
    ensures
        c == hex_char(d as nat),
{
    if d < 10 {
        ((d as u8) + 48) as char
    } else {
        ((d as u8) + 87) as char
    }
}

/// Appends the last `k` hexadecimal digits of `n`.
pub(crate) fn push_hex_fixed(v: &mut Vec<char>, n: u64, k: u32)
    ensures
        final(v)@ == old(v)@ + hex_fixed(n as nat, k as nat),
    decreases k,
{
    if k > 0 {
        push_hex_fixed(v, n / 16, k - 1);
        v.push(hex_digit(n % 16));
        assert(final(v)@ =~= old(v)@ + hex_fixed(n as nat, k as nat));
    } else {
        assert(final(v)@ =~= old(v)@ + hex_fixed(n as nat, k as nat));
    }
}

/// Quality of protection options.
#[derive(Debug, Clone, Copy, PartialEq, Eq, Structural)]
pub enum Qop {
    /// No quality of protection.
    NoQop,
    /// Authentication only.
    Auth,
    /// Authentication with integrity protection.
    AuthInt,
}

/// The text a qop is written as.
pub open spec fn qop_text(q: Qop) -> Seq<char> {
    match q {
        Qop::NoQop => Seq::empty(),
        Qop::Auth => "auth"@,
        Qop::AuthInt => "auth-int"@,
    }
}

impl Qop {
    /// The text the qop is written as ("", "auth" or "auth-int").
    pub fn as_str(&self) -> (s: &'static str)
        ensures
            s@ == qop_text(*self),
    {
        proof {
            reveal_strlit("");
        }
        match self {
            Qop::NoQop => "",
            Qop::Auth => "auth",
            Qop::AuthInt => "auth-int",
        }
    }
}

impl Default for Qop {
    fn default() -> (q: Self)
        ensures
            q == Qop::NoQop,
    {
        Qop::NoQop
    }
}

/// Digest authentication algorithm.
#[derive(Debug, Clone, Copy, PartialEq, Eq, Structural)]
pub enum Algorithm {
    /// MD5 algorithm (default for SIP).
    Md5,
    /// MD5-sess algorithm.
    Md5Sess,
}

/// The text an algorithm is written as.
pub open spec fn algorithm_text(a: Algorithm) -> Seq<char> {
    match a {
        Algorithm::Md5 => "MD5"@,
        Algorithm::Md5Sess => "MD5-sess"@,
    }
}

impl Algorithm {
    /// The text the algorithm is written as ("MD5" or "MD5-sess").
    pub fn as_str(&self) -> (s: &'static str)
        ensures
            s@ == algorithm_text(*self),
    {
        match self {
            Algorithm::Md5 => "MD5",
            Algorithm::Md5Sess => "MD5-sess",
        }
    }
}

impl Default for Algorithm {
    fn default() -> (a: Self)
        ensures
            a == Algorithm::Md5,
    {
        Algorithm::Md5
    }
}

/// Digest authentication errors.
#[derive(Debug)]
pub enum DigestAuthError {
    /// Missing required field in challenge.
    MissingField(&'static str),
    /// Unsupported algorithm.
    UnsupportedAlgorithm(String),
    /// Unsupported qop value.
    UnsupportedQop(String),
    /// Parse error.
    ParseError(String),
}

/// A digest error as plain values.
pub enum AuthErrorView {
    MissingField(Seq<char>),
    UnsupportedAlgorithm(Seq<char>),
    UnsupportedQop(Seq<char>),
    ParseError(Seq<char>),
}

impl View for DigestAuthError {
    type V = AuthErrorView;

    open spec fn view(&self) -> AuthErrorView {
        match self {
            DigestAuthError::MissingField(f) => AuthErrorView::MissingField(f@),
            DigestAuthError::UnsupportedAlgorithm(a) => AuthErrorView::UnsupportedAlgorithm(a@),
            DigestAuthError::UnsupportedQop(q) => AuthErrorView::UnsupportedQop(q@),
            DigestAuthError::ParseError(m) => AuthErrorView::ParseError(m@),
        }
    }
}

impl DigestAuthError {
    /// The error's message.
    pub fn to_text(&self) -> (s: String)
        ensures
            s@ == auth_error_text(self@),
    {
        let mut v: Vec<char> = Vec::new();
        match self {
            DigestAuthError::MissingField(f) => {
                push_str(&mut v, "missing required field: ");
                push_str(&mut v, f);
            },
            DigestAuthError::UnsupportedAlgorithm(a) => {
                push_str(&mut v, "unsupported algorithm: ");
                push_str(&mut v, a.as_str());
            },
            DigestAuthError::UnsupportedQop(q) => {
                push_str(&mut v, "unsupported qop: ");
                push_str(&mut v, q.as_str());
            },
            DigestAuthError::ParseError(m) => {
                push_str(&mut v, "parse error: ");
                push_str(&mut v, m.as_str());
            },
        }
        string_of(v.as_slice())
    }
}

/// The message of an error.
pub open spec fn auth_error_text(e: AuthErrorView) -> Seq<char> {
    match e {
        AuthErrorView::MissingField(f) => "missing required field: "@ + f,
        AuthErrorView::UnsupportedAlgorithm(a) => "unsupported algorithm: "@ + a,
        AuthErrorView::UnsupportedQop(q) => "unsupported qop: "@ + q,
        AuthErrorView::ParseError(m) => "parse error: "@ + m,
    }
}

} // verus!

verus! {

/// Whether `c` separates parameters: a comma or white space.
pub open spec fn is_sep(c: char) -> bool {
    c == ',' || is_ws(c)
}

/// The first position at or after `i` that is not a separator.
pub open spec fn skip_sep(s: Seq<char>, i: int) -> int
    decreases s.len() - i,
{
    if 0 <= i < s.len() && is_sep(s[i]) { skip_sep(s, i + 1) } else { i }
}

/// The `key=value` parameters of `s[i..]` after those in `acc`, in order: keys lower-cased and
/// trimmed, values either quoted (up to the next quote) or running to the next comma, trimmed.
pub open spec fn params_from(s: Seq<char>, i: int, acc: Seq<(Seq<char>, Seq<char>)>) -> Result<
    Seq<(Seq<char>, Seq<char>)>,
    AuthErrorView,
>
    decreases s.len() - i,
{
    let j = skip_sep(s, i);
    if j < i || j >= s.len() {
        Ok(acc)
    } else {
        match find_from(s, '=', j) {
            None => Err(AuthErrorView::ParseError("expected '=' in params: "@ + s.subrange(j, s.len() as int))),
            Some(e) => {
                let key = lower_seq(crate::text::trimmed(s.subrange(j, e)));
                let k = skip_ws(s, e + 1);
                if k < s.len() && s[k] == '"' {
                    match find_from(s, '"', k + 1) {
                        None => Err(AuthErrorView::ParseError("unterminated quoted string"@)),
                        Some(q) => if q + 1 <= i || q + 1 > s.len() {
                            Ok(acc)
                        } else {
                            params_from(s, q + 1, acc.push((key, s.subrange(k + 1, q))))
                        },
                    }
                } else {
                    let end = match find_from(s, ',', k) {
                        Some(c) => c,
                        None => s.len() as int,
                    };
                    if end <= i || end > s.len() {
                        Ok(acc)
                    } else {
                        params_from(s, end, acc.push((key, crate::text::trimmed(s.subrange(k, end)))))
                    }
                }
            },
        }
    }
}

/// The parameters of a challenge's parameter text.
pub open spec fn params_of(s: Seq<char>) -> Result<Seq<(Seq<char>, Seq<char>)>, AuthErrorView> {
    params_from(crate::text::trimmed(s), 0, Seq::empty())
}

/// The value of the last parameter named `key` (a later one replaces an earlier one).
pub open spec fn param_get(ps: Seq<(Seq<char>, Seq<char>)>, key: Seq<char>) -> Option<Seq<char>>
    decreases ps.len(),
{
    if ps.len() == 0 {
        None
    } else if ps.last().0 == key {
        Some(ps.last().1)
    } else {
        param_get(ps.drop_last(), key)
    }
}

/// Whether `w` occurs in `v`.
pub open spec fn contains_text(v: Seq<char>, w: Seq<char>) -> bool {
    exists|i: int| 0 <= i && i + w.len() <= v.len() && #[trigger] v.subrange(i, i + w.len()) == w
}

/// The qop chosen from an offered list: auth-int only when plain auth is not offered first.
pub open spec fn qop_choice(v: Seq<char>) -> Qop {
    if contains_text(v, "auth-int"@) && !contains_text(v, "auth,"@) {
        Qop::AuthInt
    } else if contains_text(v, "auth"@) {
        Qop::Auth
    } else {
        Qop::NoQop
    }
}

/// The algorithm named by an optional `algorithm` parameter.
pub open spec fn algorithm_decode(v: Option<Seq<char>>) -> Result<Algorithm, AuthErrorView> {
    match v {
        None => Ok(Algorithm::Md5),
        Some(a) => if a == "MD5"@ {
            Ok(Algorithm::Md5)
        } else if a == "MD5-sess"@ {
            Ok(Algorithm::Md5Sess)
        } else {
            Err(AuthErrorView::UnsupportedAlgorithm(a))
        },
    }
}

/// Parsed WWW-Authenticate or Proxy-Authenticate challenge.
#[derive(Debug, Clone)]
pub struct DigestChallenge {
    /// Authentication realm.
    pub realm: String,
    /// Server nonce.
    pub nonce: String,
    /// Opaque value (optional, must be returned if present).
    pub opaque: Option<String>,
    /// Stale flag (if true, re-authenticate with new nonce).
    pub stale: bool,
    /// Algorithm to use.
    pub algorithm: Algorithm,
    /// Quality of protection options offered.
    pub qop: Option<Qop>,
    /// Domain of protection (optional).
    pub domain: Option<String>,
}

/// A challenge as plain values.
pub struct ChallengeView {
    pub realm: Seq<char>,
    pub nonce: Seq<char>,
    pub opaque: Option<Seq<char>>,
    pub stale: bool,
    pub algorithm: Algorithm,
    pub qop: Option<Qop>,
    pub domain: Option<Seq<char>>,
}

/// The view of an optional string.
pub open spec fn opt_view(s: Option<String>) -> Option<Seq<char>> {
    match s {
        Some(v) => Some(v@),
        None => None,
    }
}

impl View for DigestChallenge {
    type V = ChallengeView;

    open spec fn view(&self) -> ChallengeView {
        ChallengeView {
            realm: self.realm@,
            nonce: self.nonce@,
            opaque: opt_view(self.opaque),
            stale: self.stale,
            algorithm: self.algorithm,
            qop: self.qop,
            domain: opt_view(self.domain),
        }
    }
}

/// What parsing a WWW-Authenticate or Proxy-Authenticate value gives.
pub open spec fn challenge_decode(h0: Seq<char>) -> Result<ChallengeView, AuthErrorView> {
    let h = crate::text::trimmed(h0);
    if h.len() < 7 || lower_seq(h.take(7)) != "digest "@ {
        Err(AuthErrorView::ParseError("expected Digest authentication scheme"@))
    } else {
        match params_of(h.subrange(7, h.len() as int)) {
            Err(e) => Err(e),
            Ok(ps) => match param_get(ps, "realm"@) {
                None => Err(AuthErrorView::MissingField("realm"@)),
                Some(realm) => match param_get(ps, "nonce"@) {
                    None => Err(AuthErrorView::MissingField("nonce"@)),
                    Some(nonce) => match algorithm_decode(param_get(ps, "algorithm"@)) {
                        Err(e) => Err(e),
                        Ok(algorithm) => Ok(
                            ChallengeView {
                                realm,
                                nonce,
                                opaque: param_get(ps, "opaque"@),
                                stale: match param_get(ps, "stale"@) {
                                    Some(v) => lower_seq(v) == "true"@,
                                    None => false,
                                },
                                algorithm,
                                qop: match param_get(ps, "qop"@) {
                                    Some(v) => Some(qop_choice(v)),
                                    None => None,
                                },
                                domain: param_get(ps, "domain"@),
                            },
                        ),
                    },
                },
            },
        }
    }
}

proof fn lemma_skip_sep_ge(s: Seq<char>, i: int)
    ensures
        skip_sep(s, i) >= i,
        0 <= i <= s.len() ==> skip_sep(s, i) <= s.len(),
    decreases s.len() - i,
{
    if 0 <= i < s.len() && is_sep(s[i]) {
        lemma_skip_sep_ge(s, i + 1);
    }
}

proof fn lemma_skip_ws_ge(s: Seq<char>, i: int)
    ensures
        skip_ws(s, i) >= i,
        0 <= i <= s.len() ==> skip_ws(s, i) <= s.len(),
    decreases s.len() - i,
{
    if 0 <= i < s.len() && is_ws(s[i]) {
        lemma_skip_ws_ge(s, i + 1);
    }
}

proof fn lemma_find_from_ge(s: Seq<char>, c: char, i: int)
    ensures
        find_from(s, c, i) matches Some(k) ==> i <= k < s.len() && s[k] == c,
    decreases s.len() - i,
{
    if 0 <= i < s.len() && s[i] != c {
        lemma_find_from_ge(s, c, i + 1);
    }
}

fn skip_sep_exec(s: &[char], i: usize) -> (r: usize)
    requires
        i <= s.len(),
    ensures
        r == skip_sep(s@, i as int),
        i <= r <= s.len(),
{
    let mut k = i;
    while k < s.len() && (s[k] == ',' || crate::text::char_is_ws(s[k]))
        invariant
            i <= k <= s.len(),
            skip_sep(s@, i as int) == skip_sep(s@, k as int),
        decreases s.len() - k,
    {
        k += 1;
    }
    k
}

fn skip_ws_exec(s: &[char], i: usize) -> (r: usize)
    requires
        i <= s.len(),
    ensures
        r == skip_ws(s@, i as int),
        i <= r <= s.len(),
{
    let mut k = i;
    while k < s.len() && crate::text::char_is_ws(s[k])
        invariant
            i <= k <= s.len(),
            skip_ws(s@, i as int) == skip_ws(s@, k as int),
        decreases s.len() - k,
    {
        k += 1;
    }
    k
}

fn find_exec(s: &[char], c: char, i: usize) -> (r: Option<usize>)
    requires
        i <= s.len(),
    ensures
        r matches Some(k) ==> find_from(s@, c, i as int) == Some(k as int) && i <= k < s.len(),
        r is None ==> find_from(s@, c, i as int) is None,
{
    assert(s@.subrange(0, s@.len() as int) =~= s@);
    crate::text::find_char(s, i, s.len(), c)
}

/// Parses the parameters of a challenge, in order.
fn parse_auth_params(s: &[char]) -> (r: Result<Vec<(String, String)>, DigestAuthError>)
    ensures
        match params_from(s@, 0, Seq::empty()) {
            Ok(ps) => r matches Ok(v) && Seq::new(v@.len(), |k: int| (v@[k].0@, v@[k].1@)) == ps,
            Err(e) => r matches Err(x) && x@ == e,
        },
{
    let mut params: Vec<(String, String)> = Vec::new();
    let mut i: usize = 0;
    assert(Seq::new(params@.len(), |k: int| (params@[k].0@, params@[k].1@)) =~= Seq::<(Seq<char>, Seq<char>)>::empty());
    while i < s.len()
        invariant
            i <= s.len(),
            params_from(s@, 0, Seq::empty()) == params_from(
                s@,
                i as int,
                Seq::new(params@.len(), |k: int| (params@[k].0@, params@[k].1@)),
            ),
        decreases s.len() - i,
    {
        let ghost acc = Seq::new(params@.len(), |k: int| (params@[k].0@, params@[k].1@));
        let j = skip_sep_exec(s, i);
        if j >= s.len() {
            assert(params_from(s@, i as int, acc) == Ok::<Seq<(Seq<char>, Seq<char>)>, AuthErrorView>(acc));
            assert(params_from(s@, j as int, acc) == Ok::<Seq<(Seq<char>, Seq<char>)>, AuthErrorView>(acc));
            i = j;
            continue;
        }
        let e = match find_exec(s, '=', j) {
            Some(e) => e,
            None => {
                let mut m: Vec<char> = Vec::new();
                push_str(&mut m, "expected '=' in params: ");
                let rest = copy_chars(s, j, s.len());
                push_chars(&mut m, rest.as_slice());
                return Err(DigestAuthError::ParseError(string_of(m.as_slice())));
            },
        };
        let key_chars = crate::text::trim_copy(s, j, e);
        let key = string_of(crate::text::lower_range(key_chars.as_slice(), 0, key_chars.len()).as_slice());
        assert(key_chars@.subrange(0, key_chars@.len() as int) =~= key_chars@);
        let k = skip_ws_exec(s, e + 1);
        if k < s.len() && s[k] == '"' {
            let q = match find_exec(s, '"', k + 1) {
                Some(q) => q,
                None => return Err(DigestAuthError::ParseError("unterminated quoted string".to_string())),
            };
            let value = crate::text::string_range(s, k + 1, q);
            params.push((key, value));
            assert(Seq::new(params@.len(), |x: int| (params@[x].0@, params@[x].1@)) =~= acc.push(
                (lower_seq(crate::text::trimmed(s@.subrange(j as int, e as int))), s@.subrange(k + 1, q as int)),
            ));
            i = q + 1;
        } else {
            let end = match find_exec(s, ',', k) {
                Some(c) => c,
                None => s.len(),
            };
            let vchars = crate::text::trim_copy(s, k, end);
            let value = string_of(vchars.as_slice());
            params.push((key, value));
            assert(Seq::new(params@.len(), |x: int| (params@[x].0@, params@[x].1@)) =~= acc.push(
                (
                    lower_seq(crate::text::trimmed(s@.subrange(j as int, e as int))),
                    crate::text::trimmed(s@.subrange(k as int, end as int)),
                ),
            ));
            i = end;
        }
    }
    proof {
        let acc = Seq::new(params@.len(), |k: int| (params@[k].0@, params@[k].1@));
        assert(skip_sep(s@, i as int) == i);
        assert(params_from(s@, i as int, acc) == Ok::<Seq<(Seq<char>, Seq<char>)>, AuthErrorView>(acc));
    }
    Ok(params)
}

/// The value of the last parameter named `key`.
fn get_param(params: &Vec<(String, String)>, key: &str) -> (r: Option<String>)
    ensures
        opt_view(r) == param_get(Seq::new(params@.len(), |k: int| (params@[k].0@, params@[k].1@)), key@),
{
    let ghost ps = Seq::new(params@.len(), |k: int| (params@[k].0@, params@[k].1@));
    let mut i = params.len();
    assert(ps.take(ps.len() as int) =~= ps);
    while i > 0
        invariant
            i <= params@.len(),
            ps == Seq::new(params@.len(), |k: int| (params@[k].0@, params@[k].1@)),
            param_get(ps, key@) == param_get(ps.take(i as int), key@),
        decreases i,
    {
        let ghost t = ps.take(i as int);
        assert(t.drop_last() =~= ps.take(i - 1));
        let kc = chars_of(params[i - 1].0.as_str());
        assert(kc@.subrange(0, kc@.len() as int) =~= params@[i - 1].0@);
        if crate::text::range_is(kc.as_slice(), 0, kc.len(), key) {
            return Some(params[i - 1].1.clone());
        }
        i -= 1;
    }
    None
}

/// Whether `w` occurs in `v`.
fn contains_exec(v: &[char], w: &str) -> (b: bool)
    ensures
        b == contains_text(v@, w@),
{
    let wc = chars_of(w);
    if wc.len() == 0 {
        assert(v@.subrange(0, 0 + w@.len() as int) =~= w@);
        return true;
    }
    if wc.len() > v.len() {
        proof {
            assert forall|i: int| !(0 <= i && i + w@.len() <= v@.len() && #[trigger] v@.subrange(i, i + w@.len()) == w@) by {}
        }
        return false;
    }
    let mut i: usize = 0;
    while i <= v.len() - wc.len()
        invariant
            wc@ == w@,
            1 <= wc.len() <= v.len(),
            i <= v.len() - wc.len() + 1,
            forall|j: int| 0 <= j < i ==> #[trigger] v@.subrange(j, j + w@.len()) != w@,
        decreases v.len() + 1 - i,
    {
        if crate::text::range_eq(v, i, i + wc.len(), wc.as_slice()) {
            return true;
        }
        i += 1;
    }
    proof {
        assert forall|j: int| !(0 <= j && j + w@.len() <= v@.len() && #[trigger] v@.subrange(j, j + w@.len()) == w@) by {
            if 0 <= j && j + w@.len() <= v@.len() {
                assert(j < i);
            }
        }
    }
    false
}

impl DigestChallenge {
    /// Parse a WWW-Authenticate or Proxy-Authenticate header value.
    ///
    /// Expected format: `Digest realm="...", nonce="...", ...`
    pub fn parse(header_value: &str) -> (r: Result<Self, DigestAuthError>)
        ensures
            match challenge_decode(header_value@) {
                Ok(c) => r matches Ok(x) && x@ == c,
                Err(e) => r matches Err(x) && x@ == e,
            },
    {
        let cs = chars_of(header_value);
        assert(cs@.subrange(0, cs@.len() as int) =~= header_value@);
        let h = crate::text::trim_copy(cs.as_slice(), 0, cs.len());
        if h.len() < 7 || !crate::text::range_eq_lower(h.as_slice(), 0, 7, "digest ") {
            return Err(DigestAuthError::ParseError("expected Digest authentication scheme".to_string()));
        }
        assert(h@.take(7) =~= h@.subrange(0, 7));
        let s = crate::text::trim_copy(h.as_slice(), 7, h.len());
        let params = match parse_auth_params(s.as_slice()) {
            Ok(p) => p,
            Err(e) => return Err(e),
        };
        let realm = match get_param(&params, "realm") {
            Some(v) => v,
            None => return Err(DigestAuthError::MissingField("realm")),
        };
        let nonce = match get_param(&params, "nonce") {
            Some(v) => v,
            None => return Err(DigestAuthError::MissingField("nonce")),
        };
        let algorithm = match get_param(&params, "algorithm") {
            None => Algorithm::Md5,
            Some(a) => {
                let ac = chars_of(a.as_str());
                assert(ac@.subrange(0, ac@.len() as int) =~= a@);
                if crate::text::range_is(ac.as_slice(), 0, ac.len(), "MD5") {
                    Algorithm::Md5
                } else if crate::text::range_is(ac.as_slice(), 0, ac.len(), "MD5-sess") {
                    Algorithm::Md5Sess
                } else {
                    return Err(DigestAuthError::UnsupportedAlgorithm(a));
                }
            },
        };
        let opaque = get_param(&params, "opaque");
        let domain = get_param(&params, "domain");
        let stale = match get_param(&params, "stale") {
            Some(v) => {
                let vc = chars_of(v.as_str());
                assert(vc@.subrange(0, vc@.len() as int) =~= v@);
                crate::text::range_eq_lower(vc.as_slice(), 0, vc.len(), "true")
            },
            None => false,
        };
        let qop = match get_param(&params, "qop") {
            Some(v) => {
                let vc = chars_of(v.as_str());
                if contains_exec(vc.as_slice(), "auth-int") && !contains_exec(vc.as_slice(), "auth,") {
                    Some(Qop::AuthInt)
                } else if contains_exec(vc.as_slice(), "auth") {
                    Some(Qop::Auth)
                } else {
                    Some(Qop::NoQop)
                }
            },
            None => None,
        };
        Ok(DigestChallenge { realm, nonce, opaque, stale, algorithm, qop, domain })
    }
}

} // verus!

verus! {

/// The lower-case hexadecimal MD5 digest of the UTF-8 bytes of `text`.
pub open spec fn md5_hex(text: Seq<char>) -> Seq<char> {
    hex_bytes(md5_of(encode_utf8(text)))
}

/// `a:b`.
pub open spec fn colon2(a: Seq<char>, b: Seq<char>) -> Seq<char> {
    a + seq![':'] + b
}

/// `a:b:c`.
pub open spec fn colon3(a: Seq<char>, b: Seq<char>, c: Seq<char>) -> Seq<char> {
    a + seq![':'] + b + seq![':'] + c
}

/// The text of an optional string, empty when absent.
pub open spec fn or_empty(s: Option<Seq<char>>) -> Seq<char> {
    match s {
        Some(v) => v,
        None => Seq::empty(),
    }
}

/// HA1: `MD5(username:realm:password)`, or for MD5-sess `MD5(HA1:nonce:cnonce)` over it.
pub open spec fn digest_ha1(
    username: Seq<char>,
    password: Seq<char>,
    realm: Seq<char>,
    nonce: Seq<char>,
    algorithm: Algorithm,
    cnonce: Option<Seq<char>>,
) -> Seq<char> {
    let base = md5_hex(colon3(username, realm, password));
    match algorithm {
        Algorithm::Md5 => base,
        Algorithm::Md5Sess => md5_hex(colon3(base, nonce, or_empty(cnonce))),
    }
}

/// HA2: `MD5(method:uri)`, or for auth-int `MD5(method:uri:MD5(body))`.
pub open spec fn digest_ha2(method: Seq<char>, uri: Seq<char>, qop: Option<Qop>, body: Option<Seq<u8>>) -> Seq<char> {
    match qop {
        Some(Qop::AuthInt) => md5_hex(
            colon3(
                method,
                uri,
                hex_bytes(
                    md5_of(
                        match body {
                            Some(b) => b,
                            None => Seq::empty(),
                        },
                    ),
                ),
            ),
        ),
        _ => md5_hex(colon2(method, uri)),
    }
}

/// The digest response: `MD5(HA1:nonce:HA2)`, or with a qop
/// `MD5(HA1:nonce:nc:cnonce:qop:HA2)` where `nc` is eight hexadecimal digits (1 if absent).
pub open spec fn digest_response(
    username: Seq<char>,
    password: Seq<char>,
    realm: Seq<char>,
    method: Seq<char>,
    uri: Seq<char>,
    nonce: Seq<char>,
    algorithm: Algorithm,
    qop: Option<Qop>,
    cnonce: Option<Seq<char>>,
    nc: Option<u32>,
    body: Option<Seq<u8>>,
) -> Seq<char> {
    let ha1 = digest_ha1(username, password, realm, nonce, algorithm, cnonce);
    let ha2 = digest_ha2(method, uri, qop, body);
    match qop {
        Some(q) => if q != Qop::NoQop {
            md5_hex(
                colon3(ha1, nonce, hex_fixed((match nc {
                    Some(n) => n,
                    None => 1u32,
                }) as nat, 8)) + seq![':'] + or_empty(cnonce) + seq![':'] + qop_text(q) + seq![':'] + ha2,
            )
        } else {
            md5_hex(colon3(ha1, nonce, ha2))
        },
        None => md5_hex(colon3(ha1, nonce, ha2)),
    }
}

/// The lower-case hexadecimal MD5 digest of the UTF-8 bytes of `text`.
fn md5_hex_of(text: &[char]) -> (r: String)
    ensures
        r@ == md5_hex(text@),
{
    let s = string_of(text);
    let d = md5_digest(s.as_str().as_bytes());
    hex_encode(&d)
}

/// Appends `a:b:c`.
fn push_colon3(v: &mut Vec<char>, a: &str, b: &str, c: &str)
    ensures
        final(v)@ == old(v)@ + colon3(a@, b@, c@),
{
    push_str(v, a);
    v.push(':');
    push_str(v, b);
    v.push(':');
    push_str(v, c);
    assert(final(v)@ =~= old(v)@ + colon3(a@, b@, c@));
}

/// Compute the digest response hash.
pub fn compute_digest(
    username: &str,
    password: &str,
    realm: &str,
    method: &str,
    uri: &str,
    nonce: &str,
    algorithm: Algorithm,
    qop: Option<Qop>,
    cnonce: Option<&str>,
    nc: Option<u32>,
    body: Option<&[u8]>,
) -> (r: String)
    ensures
        r@ == digest_response(
            username@,
            password@,
            realm@,
            method@,
            uri@,
            nonce@,
            algorithm,
            qop,
            match cnonce {
                Some(c) => Some(c@),
                None => None,
            },
            nc,
            match body {
                Some(b) => Some(b@),
                None => None,
            },
        ),
{
    let ghost cn = match cnonce {
        Some(c) => Some(c@),
        None => None::<Seq<char>>,
    };
    let cnonce_text: &str = match cnonce {
        Some(c) => c,
        None => "",
    };
    proof {
        reveal_strlit("");
    }
    assert(cnonce_text@ == or_empty(cn));
    let mut t1: Vec<char> = Vec::new();
    push_colon3(&mut t1, username, realm, password);
    let ha1_base = md5_hex_of(t1.as_slice());
    let ha1 = match algorithm {
        Algorithm::Md5 => ha1_base,
        Algorithm::Md5Sess => {
            let mut t: Vec<char> = Vec::new();
            push_colon3(&mut t, ha1_base.as_str(), nonce, cnonce_text);
            md5_hex_of(t.as_slice())
        },
    };
    let ha2 = match qop {
        Some(Qop::AuthInt) => {
            let body_hash = match body {
                Some(b) => hex_encode(&md5_digest(b)),
                None => {
                    let empty: Vec<u8> = Vec::new();
                    hex_encode(&md5_digest(empty.as_slice()))
                },
            };
            let mut t: Vec<char> = Vec::new();
            push_colon3(&mut t, method, uri, body_hash.as_str());
            md5_hex_of(t.as_slice())
        },
        _ => {
            let mut t: Vec<char> = Vec::new();
            push_str(&mut t, method);
            t.push(':');
            push_str(&mut t, uri);
            assert(t@ =~= colon2(method@, uri@));
            md5_hex_of(t.as_slice())
        },
    };
    let with_qop = match qop {
        Some(q) => q != Qop::NoQop,
        None => false,
    };
    if with_qop {
        let q = match qop {
            Some(q) => q,
            None => Qop::NoQop,
        };
        let n: u32 = match nc {
            Some(n) => n,
            None => 1,
        };
        let mut t: Vec<char> = Vec::new();
        let mut nc_text: Vec<char> = Vec::new();
        push_hex_fixed(&mut nc_text, n as u64, 8);
        push_str(&mut t, ha1.as_str());
        t.push(':');
        push_str(&mut t, nonce);
        t.push(':');
        push_chars(&mut t, nc_text.as_slice());
        t.push(':');
        push_str(&mut t, cnonce_text);
        t.push(':');
        push_str(&mut t, q.as_str());
        t.push(':');
        push_str(&mut t, ha2.as_str());
        assert(t@ =~= colon3(ha1@, nonce@, hex_fixed(n as nat, 8)) + seq![':'] + or_empty(cn) + seq![':']
            + qop_text(q) + seq![':'] + ha2@);
        md5_hex_of(t.as_slice())
    } else {
        let mut t: Vec<char> = Vec::new();
        push_colon3(&mut t, ha1.as_str(), nonce, ha2.as_str());
        md5_hex_of(t.as_slice())
    }
}

/// The hexadecimal spelling of `b` has two lower-case hexadecimal digits per byte.
proof fn lemma_hex_bytes_form(b: Seq<u8>)
    ensures
        hex_bytes(b).len() == 2 * b.len(),
        crate::sip::message::is_lower_hex(hex_bytes(b)),
    decreases b.len(),
{
    if b.len() > 0 {
        lemma_hex_bytes_form(b.drop_last());
        let h = hex_bytes(b.drop_last());
        let t = seq![hex_char((b.last() / 16) as nat), hex_char((b.last() % 16) as nat)];
        assert(hex_bytes(b) == h + t);
        assert forall|i: int| 0 <= i < (h + t).len() implies ('0' <= #[trigger] (h + t)[i] <= '9' || 'a' <= (h
            + t)[i] <= 'f') by {
            if i < h.len() {
                assert((h + t)[i] == h[i]);
            }
        }
    }
}

/// Generate a client nonce: sixteen random bytes in hexadecimal.
pub fn generate_cnonce() -> (s: String)
    ensures
        exists|b: Seq<u8>| b.len() == 16 && s@ == hex_bytes(b),
{
    let b = crate::random::random_bytes16();
    hex_encode(&b)
}

/// Credentials for digest authentication.
#[derive(Debug, Clone)]
pub struct DigestCredentials {
    /// Username.
    pub username: String,
    /// Password.
    pub password: String,
}

impl DigestCredentials {
    /// Create new credentials.
    pub fn new(username: &str, password: &str) -> (c: Self)
        ensures
            c.username@ == username@,
            c.password@ == password@,
    {
        DigestCredentials { username: username.to_string(), password: password.to_string() }
    }
}

/// Generated Authorization or Proxy-Authorization header.
#[derive(Debug, Clone)]
pub struct DigestResponse {
    /// Username.
    pub username: String,
    /// Realm.
    pub realm: String,
    /// Nonce.
    pub nonce: String,
    /// Request URI.
    pub uri: String,
    /// Response hash.
    pub response: String,
    /// Algorithm used.
    pub algorithm: Algorithm,
    /// Opaque value (if provided in challenge).
    pub opaque: Option<String>,
    /// Quality of protection used.
    pub qop: Option<Qop>,
    /// Client nonce (required if qop is used).
    pub cnonce: Option<String>,
    /// Nonce count (required if qop is used).
    pub nc: Option<u32>,
}

/// Whether `r` answers `challenge` for `credentials`, `method`, `uri` and `body`, with the client
/// nonce it carries.
pub open spec fn answers(
    r: DigestResponse,
    challenge: DigestChallenge,
    credentials: DigestCredentials,
    method: Seq<char>,
    uri: Seq<char>,
    body: Option<Seq<u8>>,
) -> bool {
    &&& r.username@ == credentials.username@
    &&& r.realm@ == challenge.realm@
    &&& r.nonce@ == challenge.nonce@
    &&& r.uri@ == uri
    &&& r.algorithm == challenge.algorithm
    &&& opt_view(r.opaque) == opt_view(challenge.opaque)
    &&& r.qop == challenge.qop
    &&& (challenge.qop is Some <==> r.cnonce is Some)
    &&& r.nc == if challenge.qop is Some { Some(1u32) } else { None }
    &&& r.response@ == digest_response(
        credentials.username@,
        credentials.password@,
        challenge.realm@,
        method,
        uri,
        challenge.nonce@,
        challenge.algorithm,
        challenge.qop,
        opt_view(r.cnonce),
        r.nc,
        body,
    )
}

impl DigestResponse {
    /// The response to `challenge` using the client nonce `cnonce` (used when the challenge
    /// offers a qop).
    pub fn with_cnonce(
        challenge: &DigestChallenge,
        credentials: &DigestCredentials,
        method: &str,
        uri: &str,
        body: Option<&[u8]>,
        cnonce: &str,
    ) -> (r: Self)
        ensures
            answers(
                r,
                *challenge,
                *credentials,
                method@,
                uri@,
                match body {
                    Some(b) => Some(b@),
                    None => None,
                },
            ),
            challenge.qop is Some ==> opt_view(r.cnonce) == Some(cnonce@),
    {
        let qop = challenge.qop;
        let (cn, nc): (Option<String>, Option<u32>) = if qop.is_some() {
            (Some(cnonce.to_string()), Some(1u32))
        } else {
            (None, None)
        };
        let cn_str: Option<&str> = match &cn {
            Some(c) => Some(c.as_str()),
            None => None,
        };
        let response = compute_digest(
            credentials.username.as_str(),
            credentials.password.as_str(),
            challenge.realm.as_str(),
            method,
            uri,
            challenge.nonce.as_str(),
            challenge.algorithm,
            qop,
            cn_str,
            nc,
            body,
        );
        DigestResponse {
            username: credentials.username.clone(),
            realm: challenge.realm.clone(),
            nonce: challenge.nonce.clone(),
            uri: uri.to_string(),
            response,
            algorithm: challenge.algorithm,
            opaque: challenge.opaque.clone(),
            qop,
            cnonce: cn,
            nc,
        }
    }

    /// Create a digest response from a challenge, with a fresh client nonce (32 lower-case
    /// hexadecimal digits) when the challenge offers a qop.
    pub fn from_challenge(
        challenge: &DigestChallenge,
        credentials: &DigestCredentials,
        method: &str,
        uri: &str,
        body: Option<&[u8]>,
    ) -> (r: Result<Self, DigestAuthError>)
        ensures
            r matches Ok(x) && answers(
                x,
                *challenge,
                *credentials,
                method@,
                uri@,
                match body {
                    Some(b) => Some(b@),
                    None => None,
                },
            ),
            challenge.qop is Some ==> (r matches Ok(x) && x.cnonce matches Some(c) && c@.len() == 32
                && crate::sip::message::is_lower_hex(c@)),
    {
        let cnonce = if challenge.qop.is_some() {
            let c = generate_cnonce();
            proof {
                let b = choose|b: Seq<u8>| b.len() == 16 && c@ == hex_bytes(b);
                lemma_hex_bytes_form(b);
            }
            c
        } else {
            String::new()
        };
        Ok(Self::with_cnonce(challenge, credentials, method, uri, body, cnonce.as_str()))
    }
}

} // verus!

verus! {

/// `name="value"`.
pub open spec fn quoted_param(name: Seq<char>, v: Seq<char>) -> Seq<char> {
    name + "=\""@ + v + "\""@
}

/// The parameters of an Authorization header value, in order.
pub open spec fn header_parts(r: DigestResponse) -> Seq<Seq<char>> {
    seq![
        quoted_param("Digest username"@, r.username@),
        quoted_param("realm"@, r.realm@),
        quoted_param("nonce"@, r.nonce@),
        quoted_param("uri"@, r.uri@),
        quoted_param("response"@, r.response@),
        "algorithm="@ + algorithm_text(r.algorithm),
    ] + match r.opaque {
        Some(o) => seq![quoted_param("opaque"@, o@)],
        None => Seq::empty(),
    } + match r.qop {
        Some(q) => if q != Qop::NoQop {
            seq!["qop="@ + qop_text(q)] + match r.cnonce {
                Some(c) => seq![quoted_param("cnonce"@, c@)],
                None => Seq::empty(),
            } + match r.nc {
                Some(n) => seq!["nc="@ + hex_fixed(n as nat, 8)],
                None => Seq::empty(),
            }
        } else {
            Seq::empty()
        },
        None => Seq::empty(),
    }
}

/// The parts joined by `, `.
pub open spec fn join_comma(p: Seq<Seq<char>>) -> Seq<char>
    decreases p.len(),
{
    if p.len() == 0 {
        Seq::empty()
    } else if p.len() == 1 {
        p[0]
    } else {
        join_comma(p.drop_last()) + ", "@ + p.last()
    }
}

/// Builds `name="value"`.
fn quoted_part(name: &str, v: &str) -> (r: Vec<char>)
    ensures
        r@ == quoted_param(name@, v@),
{
    let mut out: Vec<char> = Vec::new();
    push_str(&mut out, name);
    push_str(&mut out, "=\"");
    push_str(&mut out, v);
    push_str(&mut out, "\"");
    assert(out@ =~= quoted_param(name@, v@));
    out
}

/// Builds `name=value`.
fn plain_part(name: &str, v: &str) -> (r: Vec<char>)
    ensures
        r@ == name@ + v@,
{
    let mut out: Vec<char> = Vec::new();
    push_str(&mut out, name);
    push_str(&mut out, v);
    out
}

impl DigestResponse {
    /// Build the Authorization header value.
    pub fn to_header_value(&self) -> (s: String)
        ensures
            s@ == join_comma(header_parts(*self)),
    {
        let mut parts: Vec<Vec<char>> = Vec::new();
        parts.push(quoted_part("Digest username", self.username.as_str()));
        parts.push(quoted_part("realm", self.realm.as_str()));
        parts.push(quoted_part("nonce", self.nonce.as_str()));
        parts.push(quoted_part("uri", self.uri.as_str()));
        parts.push(quoted_part("response", self.response.as_str()));
        parts.push(plain_part("algorithm=", self.algorithm.as_str()));
        let ghost base = Seq::new(parts@.len(), |i: int| parts@[i]@);
        match &self.opaque {
            Some(o) => parts.push(quoted_part("opaque", o.as_str())),
            None => {},
        }
        let ghost with_opaque = Seq::new(parts@.len(), |i: int| parts@[i]@);
        match self.qop {
            Some(q) => {
                if q != Qop::NoQop {
                    parts.push(plain_part("qop=", q.as_str()));
                    match &self.cnonce {
                        Some(c) => parts.push(quoted_part("cnonce", c.as_str())),
                        None => {},
                    }
                    match self.nc {
                        Some(n) => {
                            let mut p: Vec<char> = Vec::new();
                            push_str(&mut p, "nc=");
                            push_hex_fixed(&mut p, n as u64, 8);
                            parts.push(p);
                        },
                        None => {},
                    }
                }
            },
            None => {},
        }
        let ghost all = Seq::new(parts@.len(), |i: int| parts@[i]@);
        assert(all =~= header_parts(*self));
        let mut out: Vec<char> = Vec::new();
        let mut i: usize = 0;
        while i < parts.len()
            invariant
                i <= parts@.len(),
                all == Seq::new(parts@.len(), |i: int| parts@[i]@),
                out@ == join_comma(all.take(i as int)),
            decreases parts.len() - i,
        {
            let ghost t = all.take(i + 1);
            assert(t.drop_last() =~= all.take(i as int));
            if i > 0 {
                push_str(&mut out, ", ");
            }
            push_chars(&mut out, parts[i].as_slice());
            proof {
                if i == 0 {
                    assert(t.len() == 1);
                }
            }
            assert(out@ =~= join_comma(all.take(i + 1)));
            i += 1;
        }
        assert(all.take(all.len() as int) =~= all);
        string_of(out.as_slice())
    }
}

} // verus!

verus! {

/// The digest response of RFC 2617 Section 3.2.2. With the MD5 algorithm, HA1 is
/// `MD5(username:realm:password)`; with MD5-sess (3.2.2.2) it is
/// `MD5(MD5(username:realm:password):nonce:cnonce)`. HA2 is `MD5(method:uri)` for no qop or
/// `auth`, and `MD5(method:uri:MD5(body))` for `auth-int`. Without a qop the response is
/// `MD5(HA1:nonce:HA2)`; with a qop it is `MD5(HA1:nonce:nc:cnonce:qop:HA2)`, `nc` in eight
/// hexadecimal digits.
pub proof fn lemma_digest_response_forms(
    username: Seq<char>,
    password: Seq<char>,
    realm: Seq<char>,
    method: Seq<char>,
    uri: Seq<char>,
    nonce: Seq<char>,
    cnonce: Seq<char>,
    nc: u32,
    body: Option<Seq<u8>>,
    body_bytes: Seq<u8>,
)
    ensures
        ({
            let c = seq![':'];
            let plain_ha1 = md5_hex(username + c + realm + c + password);
            let sess_ha1 = md5_hex(md5_hex(username + c + realm + c + password) + c + nonce + c + cnonce);
            let ha2 = md5_hex(method + c + uri);
            let with_auth = |ha1: Seq<char>|
                md5_hex(ha1 + c + nonce + c + hex_fixed(nc as nat, 8) + c + cnonce + c + "auth"@ + c + ha2);
            &&& digest_response(username, password, realm, method, uri, nonce, Algorithm::Md5, None, Some(cnonce), Some(nc), body)
                == md5_hex(plain_ha1 + c + nonce + c + ha2)
            &&& digest_response(username, password, realm, method, uri, nonce, Algorithm::Md5, None, None, None, body)
                == md5_hex(plain_ha1 + c + nonce + c + ha2)
            &&& digest_response(username, password, realm, method, uri, nonce, Algorithm::Md5Sess, None, Some(cnonce), Some(nc), body)
                == md5_hex(sess_ha1 + c + nonce + c + ha2)
            &&& digest_response(username, password, realm, method, uri, nonce, Algorithm::Md5, Some(Qop::Auth), Some(cnonce), Some(nc), body)
                == with_auth(plain_ha1)
            &&& digest_response(username, password, realm, method, uri, nonce, Algorithm::Md5Sess, Some(Qop::Auth), Some(cnonce), Some(nc), body)
                == with_auth(sess_ha1)
            &&& digest_response(username, password, realm, method, uri, nonce, Algorithm::Md5, Some(Qop::AuthInt), Some(cnonce), Some(nc), Some(body_bytes))
                == md5_hex(plain_ha1 + c + nonce + c + hex_fixed(nc as nat, 8) + c + cnonce + c + "auth-int"@ + c
                + md5_hex(method + c + uri + c + hex_bytes(md5_of(body_bytes))))
        }),
{
    let c = seq![':'];
    let base = username + c + realm + c + password;
    assert(colon3(username, realm, password) =~= base);
    let plain_ha1 = md5_hex(base);
    let sess_ha1 = md5_hex(plain_ha1 + c + nonce + c + cnonce);
    assert(colon3(plain_ha1, nonce, cnonce) =~= plain_ha1 + c + nonce + c + cnonce);
    assert(colon2(method, uri) =~= method + c + uri);
    let ha2 = md5_hex(method + c + uri);
    assert(colon3(plain_ha1, nonce, ha2) =~= plain_ha1 + c + nonce + c + ha2);
    assert(colon3(sess_ha1, nonce, ha2) =~= sess_ha1 + c + nonce + c + ha2);
    assert(colon3(plain_ha1, nonce, hex_fixed(nc as nat, 8)) + c + cnonce + c + qop_text(Qop::Auth) + c + ha2
        =~= plain_ha1 + c + nonce + c + hex_fixed(nc as nat, 8) + c + cnonce + c + "auth"@ + c + ha2);
    assert(colon3(sess_ha1, nonce, hex_fixed(nc as nat, 8)) + c + cnonce + c + qop_text(Qop::Auth) + c + ha2
        =~= sess_ha1 + c + nonce + c + hex_fixed(nc as nat, 8) + c + cnonce + c + "auth"@ + c + ha2);
    let bh = hex_bytes(md5_of(body_bytes));
    assert(colon3(method, uri, bh) =~= method + c + uri + c + bh);
    let ha2i = md5_hex(method + c + uri + c + bh);
    assert(colon3(plain_ha1, nonce, hex_fixed(nc as nat, 8)) + c + cnonce + c + qop_text(Qop::AuthInt) + c + ha2i
        =~= plain_ha1 + c + nonce + c + hex_fixed(nc as nat, 8) + c + cnonce + c + "auth-int"@ + c + ha2i);
}

} // verus!
