//! Verified text helpers: conversions between `str`/`String` and character sequences,
//! decimal numbers, whitespace and ASCII case handling.

use vstd::prelude::*;

verus! {

broadcast use vstd::string::group_string_axioms;

/// The characters of `s`, in order.
pub fn chars_of(s: &str) -> (v: Vec<char>)
    ensures
        v@ == s@,
{
    let mut v: Vec<char> = Vec::new();
    for c in it: s.chars()
        invariant
            v@ == it.seq().take(it.index() as int),
            it.seq() == s@,
    {
        v.push(c);
    }
    v
}

} // verus!

verus! {

/// Appends one character to a string (`String::push`).
#[verifier::external_body]
pub(crate) fn push_char(s: &mut String, c: char)
    ensures
        final(s)@ == old(s)@.push(c),
{
    s.push(c);
}

/// The string whose characters are `v`.
pub fn string_of(v: &[char]) -> (s: String)
    ensures
        s@ == v@,
{
    let mut s = String::new();
    let mut i: usize = 0;
    while i < v.len()
        invariant
            i <= v.len(),
            s@ == v@.take(i as int),
        decreases v.len() - i,
    {
        push_char(&mut s, v[i]);
        assert(v@.take(i as int).push(v@[i as int]) =~= v@.take(i + 1));
        i += 1;
    }
    assert(v@.take(v.len() as int) =~= v@);
    s
}

/// Appends the characters of `t` to `v`.
pub fn push_str(v: &mut Vec<char>, t: &str)
    ensures
        final(v)@ == old(v)@ + t@,
{
    let cs = chars_of(t);
    let mut i: usize = 0;
    while i < cs.len()
        invariant
            i <= cs.len(),
            cs@ == t@,
            v@ == old(v)@ + cs@.take(i as int),
        decreases cs.len() - i,
    {
        v.push(cs[i]);
        assert(old(v)@ + cs@.take(i + 1) =~= (old(v)@ + cs@.take(i as int)).push(cs@[i as int]));
        i += 1;
    }
    assert(cs@.take(cs.len() as int) =~= cs@);
}

/// Appends the characters `t` to `v`.
pub fn push_chars(v: &mut Vec<char>, t: &[char])
    ensures
        final(v)@ == old(v)@ + t@,
{
    let mut i: usize = 0;
    while i < t.len()
        invariant
            i <= t.len(),
            v@ == old(v)@ + t@.take(i as int),
        decreases t.len() - i,
    {
        v.push(t[i]);
        assert(old(v)@ + t@.take(i + 1) =~= (old(v)@ + t@.take(i as int)).push(t@[i as int]));
        i += 1;
    }
    assert(t@.take(t.len() as int) =~= t@);
}

/// The decimal digit character for `d`.
pub open spec fn digit_char(d: nat) -> char {
    if d == 0 { '0' } else if d == 1 { '1' } else if d == 2 { '2' } else if d == 3 { '3' }
    else if d == 4 { '4' } else if d == 5 { '5' } else if d == 6 { '6' } else if d == 7 { '7' }
    else if d == 8 { '8' } else { '9' }
}

/// The shortest decimal spelling of `n` (as `u64`'s `Display` prints it).
pub open spec fn dec(n: nat) -> Seq<char>
    decreases n,
{
    if n < 10 {
        seq![digit_char(n)]
    } else {
        dec(n / 10).push(digit_char(n % 10))
    }
}

fn digit_of(d: u64) -> (c: char)
    requires
        d < 10,
    ensures
        c == digit_char(d as nat),
{
    if d == 0 { '0' } else if d == 1 { '1' } else if d == 2 { '2' } else if d == 3 { '3' }
    else if d == 4 { '4' } else if d == 5 { '5' } else if d == 6 { '6' } else if d == 7 { '7' }
    else if d == 8 { '8' } else { '9' }
}

/// Appends the decimal spelling of `n` to `v`.
pub fn push_dec(v: &mut Vec<char>, n: u64)
    ensures
        final(v)@ == old(v)@ + dec(n as nat),
    decreases n,
{
    if n >= 10 {
        push_dec(v, n / 10);
    }
    v.push(digit_of(n % 10));
    proof {
        if n >= 10 {
            assert(old(v)@ + dec(n as nat) =~= old(v)@ + dec((n / 10) as nat) + seq![digit_char((n % 10) as nat)]);
        } else {
            assert(old(v)@ + dec(n as nat) =~= old(v)@.push(digit_char((n % 10) as nat)));
        }
    }
}

/// The decimal spelling of `n` as a string.
pub fn dec_string(n: u64) -> (s: String)
    ensures
        s@ == dec(n as nat),
{
    let mut v: Vec<char> = Vec::new();
    push_dec(&mut v, n);
    assert(v@ =~= dec(n as nat));
    string_of(v.as_slice())
}

/// Whether `c` is an ASCII decimal digit.
pub open spec fn is_digit(c: char) -> bool {
    '0' <= c <= '9'
}

/// The value of the digit character `c`.
pub open spec fn digit_val(c: char) -> nat {
    (c as int - '0' as int) as nat
}

/// The value of a sequence of digit characters, most significant first.
pub open spec fn digits_val(s: Seq<char>) -> nat
    decreases s.len(),
{
    if s.len() == 0 {
        0
    } else {
        digits_val(s.drop_last()) * 10 + digit_val(s.last())
    }
}

/// Whether every character of `s` is a decimal digit.
pub open spec fn all_digits(s: Seq<char>) -> bool {
    forall|i: int| 0 <= i < s.len() ==> #[trigger] is_digit(s[i])
}

/// What `str::parse` gives for an unsigned integer type whose largest value is `max`:
/// an optional leading `+`, then one or more digits, with a value no larger than `max`.
#[verifier::opaque]
pub open spec fn parse_uint(s: Seq<char>, max: nat) -> Option<nat> {
    let t = if s.len() > 0 && s[0] == '+' { s.drop_first() } else { s };
    if t.len() == 0 || !all_digits(t) || digits_val(t) > max {
        None
    } else {
        Some(digits_val(t))
    }
}

proof fn lemma_digits_val_mono(s: Seq<char>, i: int)
    requires
        0 <= i <= s.len(),
        all_digits(s),
    ensures
        digits_val(s.take(i)) <= digits_val(s),
    decreases s.len() - i,
{
    if i < s.len() {
        lemma_digits_val_mono(s, i + 1);
        assert(s.take(i + 1).drop_last() =~= s.take(i));
        assert(is_digit(s[i]));
    } else {
        assert(s.take(i) =~= s);
    }
}

/// Parses `s[from..to]` as an unsigned number no larger than `max`, as `str::parse` does.
pub fn parse_uint_range(s: &[char], from: usize, to: usize, max: u64) -> (r: Option<u64>)
    requires
        from <= to <= s.len(),
    ensures
        r matches Some(v) ==> parse_uint(s@.subrange(from as int, to as int), max as nat) == Some(v as nat),
        r matches Some(v) ==> v <= max,
        r is None ==> parse_uint(s@.subrange(from as int, to as int), max as nat) is None,
{
    reveal(parse_uint);
    let ghost full = s@.subrange(from as int, to as int);
    let mut start = from;
    if from < to && s[from] == '+' {
        start = from + 1;
    }
    let ghost t = s@.subrange(start as int, to as int);
    assert(t =~= (if full.len() > 0 && full[0] == '+' { full.drop_first() } else { full }));
    if start == to {
        return None;
    }
    let mut acc: u64 = 0;
    let mut i = start;
    while i < to
        invariant
            from <= start <= i <= to <= s.len(),
            t == s@.subrange(start as int, to as int),
            full == s@.subrange(from as int, to as int),
            t == (if full.len() > 0 && full[0] == '+' { full.drop_first() } else { full }),
            forall|k: int| 0 <= k < i - start ==> #[trigger] is_digit(t[k]),
            acc as nat == digits_val(t.take(i - start)),
            acc <= max,
        decreases to - i,
    {
        reveal(parse_uint);
        let c = s[i];
        if !('0' <= c && c <= '9') {
            assert(t[i - start] == c);
            assert(!is_digit(t[i - start]));
            assert(!all_digits(t));
            return None;
        }
        let d = (c as u32 - '0' as u32) as u64;
        assert(d as nat == digit_val(t[i - start]));
        assert(t.take(i - start + 1).drop_last() =~= t.take(i - start));
        if d > max {
            proof {
                if all_digits(t) {
                    lemma_digits_val_mono(t, i - start + 1);
                    assert(digits_val(t.take(i - start + 1)) == digits_val(t.take(i - start)) * 10 + d);
                }
            }
            return None;
        }
        if acc > (max - d) / 10 {
            proof {
                assert(acc * 10 + d > max) by (nonlinear_arith)
                    requires acc > (max - d) / 10, d <= max;
                if all_digits(t) {
                    lemma_digits_val_mono(t, i - start + 1);
                    assert(digits_val(t.take(i - start + 1)) == digits_val(t.take(i - start)) * 10 + d);
                }
            }
            return None;
        }
        proof {
            assert(acc * 10 + d <= max) by (nonlinear_arith)
                requires acc <= (max - d) / 10, d <= max;
        }
        acc = acc * 10 + d;
        i += 1;
    }
    assert(t.take(t.len() as int) =~= t);
    Some(acc)
}

} // verus!

verus! {

/// Whether `c` is white space in the sense of `char::is_whitespace` (Unicode `White_Space`).
pub open spec fn is_ws(c: char) -> bool {
    ||| ('\u{9}' <= c <= '\u{d}')
    ||| c == ' '
    ||| c == '\u{85}'
    ||| c == '\u{a0}'
    ||| c == '\u{1680}'
    ||| ('\u{2000}' <= c <= '\u{200a}')
    ||| c == '\u{2028}'
    ||| c == '\u{2029}'
    ||| c == '\u{202f}'
    ||| c == '\u{205f}'
    ||| c == '\u{3000}'
}

/// `char::is_whitespace`.
pub fn char_is_ws(c: char) -> (b: bool)
    ensures
        b == is_ws(c),
{
    ('\u{9}' <= c && c <= '\u{d}') || c == ' ' || c == '\u{85}' || c == '\u{a0}' || c == '\u{1680}'
        || ('\u{2000}' <= c && c <= '\u{200a}') || c == '\u{2028}' || c == '\u{2029}'
        || c == '\u{202f}' || c == '\u{205f}' || c == '\u{3000}'
}

/// The words of `s[i..]` as `split_whitespace` yields them, where a word that began at
/// `start` (if `start < i`) is still open.
pub open spec fn split_ws_from(s: Seq<char>, i: int, start: int) -> Seq<Seq<char>>
    decreases s.len() - i,
{
    if i >= s.len() {
        if start < i { seq![s.subrange(start, i)] } else { seq![] }
    } else if is_ws(s[i]) {
        let rest = split_ws_from(s, i + 1, i + 1);
        if start < i { seq![s.subrange(start, i)] + rest } else { rest }
    } else {
        split_ws_from(s, i + 1, start)
    }
}

/// The words of `s` as `str::split_whitespace` yields them.
pub open spec fn split_ws(s: Seq<char>) -> Seq<Seq<char>> {
    split_ws_from(s, 0, 0)
}

/// Whether the spans `r` pick the words `w` out of `s`.
pub open spec fn spans_are(s: Seq<char>, r: Seq<(usize, usize)>, w: Seq<Seq<char>>) -> bool {
    &&& r.len() == w.len()
    &&& forall|k: int| 0 <= k < r.len() ==> #[trigger] r[k].0 <= r[k].1 <= s.len()
    &&& forall|k: int| 0 <= k < r.len() ==> s.subrange(#[trigger] r[k].0 as int, r[k].1 as int) == w[k]
}

/// The words of `s[from..to]`, as `(start, end)` positions in `s`.
pub fn split_ws_spans(s: &[char], from: usize, to: usize) -> (r: Vec<(usize, usize)>)
    requires
        from <= to <= s.len(),
    ensures
        forall|k: int| 0 <= k < r@.len() ==> from <= #[trigger] r@[k].0 <= r@[k].1 <= to,
        r@.len() == split_ws(s@.subrange(from as int, to as int)).len(),
        forall|k: int| 0 <= k < r@.len() ==> s@.subrange(#[trigger] r@[k].0 as int, r@[k].1 as int)
            == split_ws(s@.subrange(from as int, to as int))[k],
{
    let ghost t = s@.subrange(from as int, to as int);
    let mut r: Vec<(usize, usize)> = Vec::new();
    let ghost mut toks: Seq<Seq<char>> = seq![];
    let mut i = from;
    let mut start = from;
    while i < to
        invariant
            from <= start <= i <= to <= s.len(),
            t == s@.subrange(from as int, to as int),
            r@.len() == toks.len(),
            forall|k: int| 0 <= k < r@.len() ==> from <= #[trigger] r@[k].0 <= r@[k].1 <= to,
            forall|k: int| 0 <= k < r@.len() ==> s@.subrange(#[trigger] r@[k].0 as int, r@[k].1 as int) == toks[k],
            toks + split_ws_from(t, i - from, start - from) == split_ws(t),
        decreases to - i,
    {
        let c = s[i];
        assert(t[i - from] == c);
        if char_is_ws(c) {
            if start < i {
                proof {
                    assert(t.subrange(start - from, i - from) =~= s@.subrange(start as int, i as int));
                    let rest = split_ws_from(t, i - from + 1, i - from + 1);
                    assert(toks + (seq![t.subrange(start - from, i - from)] + rest)
                        =~= toks.push(s@.subrange(start as int, i as int)) + rest);
                    toks = toks.push(s@.subrange(start as int, i as int));
                }
                r.push((start, i));
            }
            start = i + 1;
        }
        i += 1;
    }
    if start < to {
        proof {
            assert(t.subrange(start - from, to - from) =~= s@.subrange(start as int, to as int));
            toks = toks.push(s@.subrange(start as int, to as int));
        }
        r.push((start, to));
    }
    assert(toks =~= split_ws(t));
    r
}

/// The pieces of `s[i..]` between occurrences of `c`, where the current piece began at
/// `start`; as `str::split` yields them, empty pieces included.
pub open spec fn pieces_from(s: Seq<char>, c: char, i: int, start: int) -> Seq<Seq<char>>
    decreases s.len() - i,
{
    if i >= s.len() {
        seq![s.subrange(start, s.len() as int)]
    } else if s[i] == c {
        seq![s.subrange(start, i)] + pieces_from(s, c, i + 1, i + 1)
    } else {
        pieces_from(s, c, i + 1, start)
    }
}

/// The pieces of `s` between occurrences of `c`, as `str::split(c)` yields them.
pub open spec fn split_char(s: Seq<char>, c: char) -> Seq<Seq<char>> {
    pieces_from(s, c, 0, 0)
}

/// The pieces of `s[from..to]` between occurrences of `c`, as `(start, end)` positions in `s`.
pub fn split_char_spans(s: &[char], from: usize, to: usize, c: char) -> (r: Vec<(usize, usize)>)
    requires
        from <= to <= s.len(),
    ensures
        r@.len() >= 1,
        forall|k: int| 0 <= k < r@.len() ==> from <= #[trigger] r@[k].0 <= r@[k].1 <= to,
        r@.len() == split_char(s@.subrange(from as int, to as int), c).len(),
        forall|k: int| 0 <= k < r@.len() ==> s@.subrange(#[trigger] r@[k].0 as int, r@[k].1 as int)
            == split_char(s@.subrange(from as int, to as int), c)[k],
{
    let ghost t = s@.subrange(from as int, to as int);
    let mut r: Vec<(usize, usize)> = Vec::new();
    let ghost mut toks: Seq<Seq<char>> = seq![];
    let mut i = from;
    let mut start = from;
    while i < to
        invariant
            from <= start <= i <= to <= s.len(),
            t == s@.subrange(from as int, to as int),
            r@.len() == toks.len(),
            forall|k: int| 0 <= k < r@.len() ==> from <= #[trigger] r@[k].0 <= r@[k].1 <= to,
            forall|k: int| 0 <= k < r@.len() ==> s@.subrange(#[trigger] r@[k].0 as int, r@[k].1 as int) == toks[k],
            toks + pieces_from(t, c, i - from, start - from) == split_char(t, c),
        decreases to - i,
    {
        assert(t[i - from] == s@[i as int]);
        if s[i] == c {
            proof {
                assert(t.subrange(start - from, i - from) =~= s@.subrange(start as int, i as int));
                let rest = pieces_from(t, c, i - from + 1, i - from + 1);
                assert(toks + (seq![t.subrange(start - from, i - from)] + rest)
                    =~= toks.push(s@.subrange(start as int, i as int)) + rest);
                toks = toks.push(s@.subrange(start as int, i as int));
            }
            r.push((start, i));
            start = i + 1;
        }
        i += 1;
    }
    proof {
        assert(t.subrange(start - from, t.len() as int) =~= s@.subrange(start as int, to as int));
        toks = toks.push(s@.subrange(start as int, to as int));
    }
    r.push((start, to));
    assert(toks =~= split_char(t, c));
    r
}

/// The first position at or after `i` that is not white space.
pub open spec fn skip_ws(s: Seq<char>, i: int) -> int
    decreases s.len() - i,
{
    if 0 <= i < s.len() && is_ws(s[i]) { skip_ws(s, i + 1) } else { i }
}

/// The end of `s[..j]` once trailing white space is removed.
pub open spec fn back_ws(s: Seq<char>, j: int) -> int
    decreases j,
{
    if 0 < j <= s.len() && is_ws(s[j - 1]) { back_ws(s, j - 1) } else { j }
}

/// The bounds of `s[from..to]` once `str::trim` has removed white space at both ends.
pub open spec fn trim_bounds(s: Seq<char>, from: int, to: int) -> (int, int) {
    let a = skip_ws(s.subrange(0, to), from);
    if a >= to { (to, to) } else { (a, back_ws(s, to)) }
}

/// `s` once `str::trim` has removed white space at both ends.
pub open spec fn trimmed(s: Seq<char>) -> Seq<char> {
    let (a, b) = trim_bounds(s, 0, s.len() as int);
    s.subrange(a, b)
}

/// The trimmed copy of `s[from..to]`.
pub fn trim_copy(s: &[char], from: usize, to: usize) -> (r: Vec<char>)
    requires
        from <= to <= s.len(),
    ensures
        r@ == trimmed(s@.subrange(from as int, to as int)),
{
    let p = copy_chars(s, from, to);
    let (a, b) = trim_span(p.as_slice(), 0, p.len());
    copy_chars(p.as_slice(), a, b)
}

proof fn lemma_skip_ws_bounds(s: Seq<char>, i: int)
    requires
        0 <= i <= s.len(),
    ensures
        i <= skip_ws(s, i) <= s.len(),
        skip_ws(s, i) < s.len() ==> !is_ws(s[skip_ws(s, i)]),
    decreases s.len() - i,
{
    if i < s.len() && is_ws(s[i]) {
        lemma_skip_ws_bounds(s, i + 1);
    }
}

proof fn lemma_back_ws_bounds(s: Seq<char>, j: int, lo: int)
    requires
        0 <= lo < j <= s.len(),
        !is_ws(s[lo]),
    ensures
        lo < back_ws(s, j) <= j,
    decreases j,
{
    if is_ws(s[j - 1]) {
        lemma_back_ws_bounds(s, j - 1, lo);
    }
}

/// `str::trim` on `s[from..to]`, as positions in `s`.
pub fn trim_span(s: &[char], from: usize, to: usize) -> (r: (usize, usize))
    requires
        from <= to <= s.len(),
    ensures
        (r.0 as int, r.1 as int) == trim_bounds(s@, from as int, to as int),
        from <= r.0 <= r.1 <= to,
{
    let ghost p = s@.subrange(0, to as int);
    let mut a = from;
    while a < to && char_is_ws(s[a])
        invariant
            from <= a <= to <= s.len(),
            p == s@.subrange(0, to as int),
            skip_ws(p, from as int) == skip_ws(p, a as int),
        decreases to - a,
    {
        assert(p[a as int] == s@[a as int]);
        a += 1;
    }
    if a < to {
        assert(p[a as int] == s@[a as int]);
    }
    if a >= to {
        return (to, to);
    }
    let mut b = to;
    while b > a && char_is_ws(s[b - 1])
        invariant
            a < to <= s.len(),
            a < b <= to,
            !is_ws(s@[a as int]),
            back_ws(s@, to as int) == back_ws(s@, b as int),
        decreases b,
    {
        b -= 1;
    }
    assert(!is_ws(s@[b - 1]));
    assert(back_ws(s@, b as int) == b);
    assert(skip_ws(p, a as int) == a);
    (a, b)
}

/// The first position at or after `i` where `s` holds `c`, if any.
pub open spec fn find_from(s: Seq<char>, c: char, i: int) -> Option<int>
    decreases s.len() - i,
{
    if i < 0 || i >= s.len() {
        None
    } else if s[i] == c {
        Some(i)
    } else {
        find_from(s, c, i + 1)
    }
}

/// The first position of `c` in `s[from..to]`, as a position in `s`.
pub fn find_char(s: &[char], from: usize, to: usize, c: char) -> (r: Option<usize>)
    requires
        from <= to <= s.len(),
    ensures
        r matches Some(k) ==> from <= k < to && find_from(s@.subrange(0, to as int), c, from as int) == Some(k as int),
        r is None ==> find_from(s@.subrange(0, to as int), c, from as int) is None,
{
    let ghost p = s@.subrange(0, to as int);
    let mut i = from;
    while i < to
        invariant
            from <= i <= to <= s.len(),
            p == s@.subrange(0, to as int),
            find_from(p, c, from as int) == find_from(p, c, i as int),
        decreases to - i,
    {
        assert(p[i as int] == s@[i as int]);
        if s[i] == c {
            return Some(i);
        }
        i += 1;
    }
    None
}

/// Whether `s[from..to]` spells `w`.
pub fn range_eq(s: &[char], from: usize, to: usize, w: &[char]) -> (b: bool)
    requires
        from <= to <= s.len(),
    ensures
        b == (s@.subrange(from as int, to as int) == w@),
{
    if to - from != w.len() {
        return false;
    }
    let mut i: usize = 0;
    while i < w.len()
        invariant
            to - from == w.len(),
            from <= to <= s.len(),
            forall|k: int| 0 <= k < i ==> s@[from + k] == w@[k],
        decreases w.len() - i,
    {
        if s[from + i] != w[i] {
            assert(s@.subrange(from as int, to as int)[i as int] != w@[i as int]);
            return false;
        }
        i += 1;
    }
    assert(s@.subrange(from as int, to as int) =~= w@);
    true
}

/// Whether `s[from..to]` spells the string `w`.
pub fn range_is(s: &[char], from: usize, to: usize, w: &str) -> (b: bool)
    requires
        from <= to <= s.len(),
    ensures
        b == (s@.subrange(from as int, to as int) == w@),
{
    let wc = chars_of(w);
    range_eq(s, from, to, wc.as_slice())
}

/// Whether two strings are equal.
pub fn str_eq(a: &str, b: &str) -> (r: bool)
    ensures
        r == (a@ == b@),
{
    let ac = chars_of(a);
    let bc = chars_of(b);
    assert(ac@.subrange(0, ac@.len() as int) =~= ac@);
    range_eq(ac.as_slice(), 0, ac.len(), bc.as_slice())
}

/// The string spelled by `s[from..to]`.
pub fn string_range(s: &[char], from: usize, to: usize) -> (r: String)
    requires
        from <= to <= s.len(),
    ensures
        r@ == s@.subrange(from as int, to as int),
{
    let mut out = String::new();
    let mut i = from;
    while i < to
        invariant
            from <= i <= to <= s.len(),
            out@ == s@.subrange(from as int, i as int),
        decreases to - i,
    {
        push_char(&mut out, s[i]);
        assert(s@.subrange(from as int, i as int).push(s@[i as int]) =~= s@.subrange(from as int, i + 1));
        i += 1;
    }
    out
}

/// A copy of `s[from..to]`.
pub fn copy_chars(s: &[char], from: usize, to: usize) -> (r: Vec<char>)
    requires
        from <= to <= s.len(),
    ensures
        r@ == s@.subrange(from as int, to as int),
{
    let mut out: Vec<char> = Vec::new();
    let mut i = from;
    while i < to
        invariant
            from <= i <= to <= s.len(),
            out@ == s@.subrange(from as int, i as int),
        decreases to - i,
    {
        out.push(s[i]);
        assert(out@ =~= s@.subrange(from as int, i + 1));
        i += 1;
    }
    out
}

/// ASCII lower case of one character (`char::to_ascii_lowercase`).
pub open spec fn lower(c: char) -> char {
    if 'A' <= c <= 'Z' { ((c as u32) + 32) as char } else { c }
}

/// ASCII lower case of a character sequence.
pub open spec fn lower_seq(s: Seq<char>) -> Seq<char> {
    Seq::new(s.len(), |i: int| lower(s[i]))
}

/// `char::to_ascii_lowercase`.
pub fn char_lower(c: char) -> (d: char)
    ensures
        d == lower(c),
{
    if 'A' <= c && c <= 'Z' {
        (((c as u32) + 32) as u8) as char
    } else {
        c
    }
}

/// Whether `s[from..to]` equals `w` once ASCII letters are lower-cased.
pub fn range_eq_lower(s: &[char], from: usize, to: usize, w: &str) -> (b: bool)
    requires
        from <= to <= s.len(),
    ensures
        b == (lower_seq(s@.subrange(from as int, to as int)) == w@),
{
    let wc = chars_of(w);
    if to - from != wc.len() {
        return false;
    }
    let mut i: usize = 0;
    while i < wc.len()
        invariant
            to - from == wc.len(),
            from <= to <= s.len(),
            wc@ == w@,
            forall|k: int| 0 <= k < i ==> lower(s@[from + k]) == wc@[k],
        decreases wc.len() - i,
    {
        if char_lower(s[from + i]) != wc[i] {
            assert(lower_seq(s@.subrange(from as int, to as int))[i as int] != wc@[i as int]);
            return false;
        }
        i += 1;
    }
    assert(lower_seq(s@.subrange(from as int, to as int)) =~= wc@);
    true
}

/// The lower-cased copy of `s[from..to]` (ASCII letters only).
pub fn lower_range(s: &[char], from: usize, to: usize) -> (r: Vec<char>)
    requires
        from <= to <= s.len(),
    ensures
        r@ == lower_seq(s@.subrange(from as int, to as int)),
{
    let mut out: Vec<char> = Vec::new();
    let mut i = from;
    while i < to
        invariant
            from <= i <= to <= s.len(),
            out@ == lower_seq(s@.subrange(from as int, i as int)),
        decreases to - i,
    {
        out.push(char_lower(s[i]));
        assert(out@ =~= lower_seq(s@.subrange(from as int, i + 1)));
        i += 1;
    }
    out
}

} // verus!
