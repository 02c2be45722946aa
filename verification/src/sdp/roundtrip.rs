//! Reading back a written description: the text that `SessionDescription::to_sdp_string`
//! writes parses to the description it was written from, when every field can be written
//! without running into the separators.
use crate::sdp::builder::{
    attribute_line, attribute_lines, bandwidth_lines, connection_line, head_text, join_words, media_text, media_texts,
    media_type_name, sdp_head, sdp_text, spaced_words,
};
use crate::sdp::parser::{
    attribute_decode, bandwidth_insert, connection_decode, find_key, media_decode, media_port_decode, media_type_of,
    origin_decode, sdp_acc_empty, sdp_decode, sdp_finish, sdp_fold, sdp_line_step, timing_decode, uint_or_zero,
    MediaType, MediaView, SdpAcc, SdpParseError, SdpView,
};
use crate::text::{
    all_digits, back_ws, dec, digit_char, digit_val, digits_val, find_from, is_digit, is_ws, lower_seq, parse_uint,
    pieces_from, skip_ws, split_char, split_ws, split_ws_from, trim_bounds, trimmed,
};
use vstd::prelude::*;

verus! {

// ---- numbers ----

#[verifier::spinoff_prover]
#[verifier::rlimit(100)]
pub(crate) proof fn lemma_dec_digits(n: nat)
    ensures
        dec(n).len() >= 1,
        all_digits(dec(n)),
        digits_val(dec(n)) == n,
    decreases n,
{
    if n >= 10 {
        lemma_dec_digits(n / 10);
        let d = dec(n / 10);
        let e = d.push(digit_char(n % 10));
        assert(e.drop_last() =~= d);
        assert forall|i: int| 0 <= i < e.len() implies #[trigger] is_digit(e[i]) by {
            if i < d.len() {
                assert(e[i] == d[i]);
            }
        }
        assert(digit_val(digit_char(n % 10)) == n % 10);
        assert(e.last() == digit_char(n % 10));
        assert(digits_val(e) == digits_val(d) * 10 + digit_val(digit_char(n % 10)));
        assert((n / 10) * 10 + n % 10 == n);
    } else {
        let e = dec(n);
        assert(e.drop_last() =~= Seq::<char>::empty());
        assert(digits_val(Seq::<char>::empty()) == 0);
        assert(digit_val(digit_char(n)) == n);
        assert(digits_val(e) == digits_val(e.drop_last()) * 10 + digit_val(e.last()));
    }
}

/// The decimal spelling of a number reads back as the number.
#[verifier::spinoff_prover]
#[verifier::rlimit(100)]
pub(crate) proof fn lemma_dec_parses(n: nat, max: nat)
    requires
        n <= max,
    ensures
        parse_uint(dec(n), max) == Some(n),
{
    lemma_dec_digits(n);
    reveal(parse_uint);
    assert(is_digit(dec(n)[0]));
}

// ---- splitting at a character ----

#[verifier::spinoff_prover]
#[verifier::rlimit(100)]
proof fn lemma_pieces_shift(p: Seq<char>, b: Seq<char>, c: char, j: int, k: int)
    requires
        0 <= k <= j <= b.len(),
    ensures
        pieces_from(p + b, c, p.len() as int + j, p.len() as int + k) == pieces_from(b, c, j, k),
    decreases b.len() - j,
{
    let s = p + b;
    if j < b.len() {
        assert(s[p.len() + j] == b[j]);
        if b[j] == c {
            lemma_pieces_shift(p, b, c, j + 1, j + 1);
            assert(s.subrange(p.len() + k, p.len() + j) =~= b.subrange(k, j));
        } else {
            lemma_pieces_shift(p, b, c, j + 1, k);
        }
    } else {
        assert(s.subrange(p.len() + k, s.len() as int) =~= b.subrange(k, b.len() as int));
    }
}

#[verifier::spinoff_prover]
#[verifier::rlimit(100)]
proof fn lemma_pieces_prefix(a: Seq<char>, b: Seq<char>, c: char, i: int, start: int)
    requires
        0 <= start <= i <= a.len(),
    ensures
        pieces_from(a + seq![c] + b, c, i, start) == pieces_from(a, c, i, start) + pieces_from(
            a + seq![c] + b,
            c,
            a.len() + 1 as int,
            a.len() + 1 as int,
        ),
    decreases a.len() - i,
{
    let s = a + seq![c] + b;
    if i < a.len() {
        assert(s[i] == a[i]);
        if a[i] == c {
            lemma_pieces_prefix(a, b, c, i + 1, i + 1);
            assert(s.subrange(start, i) =~= a.subrange(start, i));
        } else {
            lemma_pieces_prefix(a, b, c, i + 1, start);
        }
    } else {
        assert(s[i] == c);
        assert(s.subrange(start, i) =~= a.subrange(start, a.len() as int));
    }
}

/// Splitting at `c` a text with a `c` in the middle gives the pieces before it and the
/// pieces after it.
#[verifier::spinoff_prover]
#[verifier::rlimit(100)]
proof fn lemma_split_char_concat(a: Seq<char>, b: Seq<char>, c: char)
    ensures
        split_char(a + seq![c] + b, c) == split_char(a, c) + split_char(b, c),
{
    let s = a + seq![c] + b;
    lemma_pieces_prefix(a, b, c, 0, 0);
    assert(s =~= (a + seq![c]) + b);
    lemma_pieces_shift(a + seq![c], b, c, 0, 0);
}

/// A text without `c` is one piece.
#[verifier::spinoff_prover]
#[verifier::rlimit(100)]
proof fn lemma_split_char_single(w: Seq<char>, c: char)
    requires
        forall|i: int| 0 <= i < w.len() ==> w[i] != c,
    ensures
        split_char(w, c) == seq![w],
{
    lemma_pieces_none(w, c, 0);
    assert(w.subrange(0, w.len() as int) =~= w);
}

#[verifier::spinoff_prover]
#[verifier::rlimit(100)]
proof fn lemma_pieces_none(w: Seq<char>, c: char, i: int)
    requires
        0 <= i <= w.len(),
        forall|k: int| 0 <= k < w.len() ==> w[k] != c,
    ensures
        pieces_from(w, c, i, 0) == seq![w.subrange(0, w.len() as int)],
    decreases w.len() - i,
{
    if i < w.len() {
        lemma_pieces_none(w, c, i + 1);
    }
}

// ---- splitting into words ----

#[verifier::spinoff_prover]
#[verifier::rlimit(100)]
proof fn lemma_ws_shift(p: Seq<char>, b: Seq<char>, j: int, k: int)
    requires
        0 <= k <= j <= b.len(),
    ensures
        split_ws_from(p + b, p.len() as int + j, p.len() as int + k) == split_ws_from(b, j, k),
    decreases b.len() - j,
{
    let s = p + b;
    if j < b.len() {
        assert(s[p.len() + j] == b[j]);
        if is_ws(b[j]) {
            lemma_ws_shift(p, b, j + 1, j + 1);
            assert(s.subrange(p.len() + k, p.len() + j) =~= b.subrange(k, j));
        } else {
            lemma_ws_shift(p, b, j + 1, k);
        }
    } else {
        assert(s.subrange(p.len() + k, p.len() + j) =~= b.subrange(k, j));
    }
}

#[verifier::spinoff_prover]
#[verifier::rlimit(100)]
proof fn lemma_ws_prefix(a: Seq<char>, b: Seq<char>, i: int, start: int)
    requires
        0 <= start <= i <= a.len(),
    ensures
        split_ws_from(a + seq![' '] + b, i, start) == split_ws_from(a, i, start) + split_ws_from(
            a + seq![' '] + b,
            a.len() + 1 as int,
            a.len() + 1 as int,
        ),
    decreases a.len() - i,
{
    let s = a + seq![' '] + b;
    if i < a.len() {
        assert(s[i] == a[i]);
        if is_ws(a[i]) {
            lemma_ws_prefix(a, b, i + 1, i + 1);
            assert(s.subrange(start, i) =~= a.subrange(start, i));
        } else {
            lemma_ws_prefix(a, b, i + 1, start);
        }
    } else {
        assert(s[i] == ' ');
        assert(s.subrange(start, i) =~= a.subrange(start, i));
    }
}

/// The words of two texts with a space between them are the words of each, in order.
#[verifier::spinoff_prover]
#[verifier::rlimit(100)]
pub(crate) proof fn lemma_split_ws_concat(a: Seq<char>, b: Seq<char>)
    ensures
        split_ws(a + seq![' '] + b) == split_ws(a) + split_ws(b),
{
    let s = a + seq![' '] + b;
    lemma_ws_prefix(a, b, 0, 0);
    assert(s =~= (a + seq![' ']) + b);
    lemma_ws_shift(a + seq![' '], b, 0, 0);
}

/// Whether a text is one word: not empty, and without white space.
pub open spec fn is_word(w: Seq<char>) -> bool {
    &&& w.len() > 0
    &&& forall|i: int| 0 <= i < w.len() ==> !is_ws(#[trigger] w[i])
}

#[verifier::spinoff_prover]
#[verifier::rlimit(100)]
proof fn lemma_ws_word(w: Seq<char>, i: int)
    requires
        is_word(w),
        0 <= i <= w.len(),
    ensures
        split_ws_from(w, i, 0) == seq![w],
    decreases w.len() - i,
{
    if i < w.len() {
        assert(!is_ws(w[i]));
        lemma_ws_word(w, i + 1);
    } else {
        assert(w.subrange(0, i) =~= w);
    }
}

/// A word is its only word.
#[verifier::spinoff_prover]
#[verifier::rlimit(100)]
pub(crate) proof fn lemma_split_ws_word(w: Seq<char>)
    requires
        is_word(w),
    ensures
        split_ws(w) == seq![w],
{
    lemma_ws_word(w, 0);
}


/// The words of a list of words joined by single spaces are the list.
#[verifier::spinoff_prover]
#[verifier::rlimit(100)]
proof fn lemma_join_words_split(w: Seq<Seq<char>>)
    requires
        forall|i: int| 0 <= i < w.len() ==> is_word(#[trigger] w[i]),
    ensures
        split_ws(join_words(w)) == w,
    decreases w.len(),
{
    if w.len() == 0 {
        assert(split_ws(Seq::<char>::empty()) =~= Seq::<Seq<char>>::empty());
    } else if w.len() == 1 {
        lemma_split_ws_word(w[0]);
        assert(seq![w[0]] =~= w);
    } else {
        lemma_join_words_split(w.drop_last());
        lemma_split_ws_concat(join_words(w.drop_last()), w.last());
        lemma_split_ws_word(w.last());
        assert(w.drop_last() + seq![w.last()] =~= w);
    }
}

/// Words joined by spaces, then more words each after a space, are all the words joined.
#[verifier::spinoff_prover]
#[verifier::rlimit(100)]
proof fn lemma_spaced_words(x: Seq<Seq<char>>, w: Seq<Seq<char>>)
    requires
        x.len() >= 1,
    ensures
        join_words(x) + spaced_words(w) == join_words(x + w),
    decreases w.len(),
{
    if w.len() == 0 {
        assert(x + w =~= x);
        assert(join_words(x) + Seq::<char>::empty() =~= join_words(x));
    } else {
        lemma_spaced_words(x, w.drop_last());
        assert((x + w).drop_last() =~= x + w.drop_last());
        assert((x + w).last() == w.last());
        assert(join_words(x) + (spaced_words(w.drop_last()) + seq![' '] + w.last()) =~= (join_words(x)
            + spaced_words(w.drop_last())) + seq![' '] + w.last());
    }
}

// ---- trimming ----

/// A line that neither begins nor ends with white space is its own trimmed form.
#[verifier::spinoff_prover]
#[verifier::rlimit(100)]
proof fn lemma_trimmed_same(t: Seq<char>)
    requires
        t.len() > 0,
        !is_ws(t[0]),
        !is_ws(t.last()),
    ensures
        trimmed(t) == t,
{
    assert(t.subrange(0, t.len() as int) =~= t);
    assert(skip_ws(t, 0) == 0);
    assert(back_ws(t, t.len() as int) == t.len());
    assert(trim_bounds(t, 0, t.len() as int) == (0int, t.len() as int));
}

// ---- lines ----

/// Lines, each followed by a line break.
pub open spec fn lines_text(ls: Seq<Seq<char>>) -> Seq<char>
    decreases ls.len(),
{
    if ls.len() == 0 {
        Seq::empty()
    } else {
        lines_text(ls.drop_last()) + ls.last() + seq!['\n']
    }
}

/// Whether a text has no line break.
pub open spec fn no_nl(w: Seq<char>) -> bool {
    forall|i: int| 0 <= i < w.len() ==> w[i] != '\n'
}

/// The text of two lists of lines is the text of each, in order.
#[verifier::spinoff_prover]
#[verifier::rlimit(100)]
proof fn lemma_lines_text_concat(a: Seq<Seq<char>>, b: Seq<Seq<char>>)
    ensures
        lines_text(a + b) == lines_text(a) + lines_text(b),
    decreases b.len(),
{
    if b.len() == 0 {
        assert(a + b =~= a);
        assert(lines_text(a) + Seq::<char>::empty() =~= lines_text(a));
    } else {
        lemma_lines_text_concat(a, b.drop_last());
        assert((a + b).drop_last() =~= a + b.drop_last());
        assert((a + b).last() == b.last());
        assert(lines_text(a) + (lines_text(b.drop_last()) + b.last() + seq!['\n']) =~= (lines_text(a)
            + lines_text(b.drop_last())) + b.last() + seq!['\n']);
    }
}

#[verifier::spinoff_prover]
#[verifier::rlimit(100)]
proof fn lemma_lines_split_tail(ls: Seq<Seq<char>>, tail: Seq<char>)
    requires
        forall|k: int| 0 <= k < ls.len() ==> no_nl(#[trigger] ls[k]),
    ensures
        split_char(lines_text(ls) + tail, '\n') == ls + split_char(tail, '\n'),
    decreases ls.len(),
{
    if ls.len() == 0 {
        assert(lines_text(ls) + tail =~= tail);
        assert(ls + split_char(tail, '\n') =~= split_char(tail, '\n'));
    } else {
        let x = ls.last();
        let rest = x + seq!['\n'] + tail;
        assert(lines_text(ls) + tail =~= lines_text(ls.drop_last()) + rest);
        lemma_lines_split_tail(ls.drop_last(), rest);
        lemma_split_char_concat(x, tail, '\n');
        assert(no_nl(ls[ls.len() - 1]));
        lemma_split_char_single(x, '\n');
        assert(ls.drop_last() + (seq![x] + split_char(tail, '\n')) =~= ls + split_char(tail, '\n'));
    }
}

/// Splitting the text of lines without line breaks gives the lines, then an empty piece.
#[verifier::spinoff_prover]
#[verifier::rlimit(100)]
proof fn lemma_lines_split(ls: Seq<Seq<char>>)
    requires
        forall|k: int| 0 <= k < ls.len() ==> no_nl(#[trigger] ls[k]),
    ensures
        split_char(lines_text(ls), '\n') == ls.push(Seq::<char>::empty()),
{
    lemma_lines_split_tail(ls, Seq::empty());
    assert(lines_text(ls) + Seq::<char>::empty() =~= lines_text(ls));
    lemma_split_char_single(Seq::<char>::empty(), '\n');
    assert(ls + seq![Seq::<char>::empty()] =~= ls.push(Seq::<char>::empty()));
}

// ---- reading lines ----

/// Reading the lines `ls` after reading gave `r`.
pub open spec fn fold_more(r: Result<SdpAcc, SdpParseError>, ls: Seq<Seq<char>>) -> Result<SdpAcc, SdpParseError>
    decreases ls.len(),
{
    if ls.len() == 0 {
        r
    } else {
        match fold_more(r, ls.drop_last()) {
            Err(e) => Err(e),
            Ok(a) => sdp_line_step(a, trimmed(ls.last())),
        }
    }
}

/// Reading two lists of lines is reading the first, then going on with the second.
#[verifier::spinoff_prover]
#[verifier::rlimit(100)]
proof fn lemma_fold_concat(a: Seq<Seq<char>>, b: Seq<Seq<char>>)
    ensures
        sdp_fold(a + b) == fold_more(sdp_fold(a), b),
    decreases b.len(),
{
    if b.len() == 0 {
        assert(a + b =~= a);
    } else {
        lemma_fold_concat(a, b.drop_last());
        assert((a + b).drop_last() =~= a + b.drop_last());
        assert((a + b).last() == b.last());
    }
}

/// Going on with two lists of lines is going on with the first, then the second.
#[verifier::spinoff_prover]
#[verifier::rlimit(100)]
proof fn lemma_fold_more_concat(r: Result<SdpAcc, SdpParseError>, a: Seq<Seq<char>>, b: Seq<Seq<char>>)
    ensures
        fold_more(r, a + b) == fold_more(fold_more(r, a), b),
    decreases b.len(),
{
    if b.len() == 0 {
        assert(a + b =~= a);
    } else {
        lemma_fold_more_concat(r, a, b.drop_last());
        assert((a + b).drop_last() =~= a + b.drop_last());
        assert((a + b).last() == b.last());
    }
}

// ---- a description as lines ----

#[verifier::spinoff_prover]
#[verifier::rlimit(100)]
proof fn lemma_lines_text_one(x: Seq<char>)
    ensures
        lines_text(seq![x]) == x + seq!['\n'],
{
    assert(seq![x].drop_last() =~= Seq::<Seq<char>>::empty());
    assert(lines_text(Seq::<Seq<char>>::empty()) == Seq::<char>::empty());
    assert(seq![x].last() == x);
    assert(Seq::<char>::empty() + x + seq!['\n'] =~= x + seq!['\n']);
}

/// The line of an attribute, without its break.
pub open spec fn attr_content(a: (Seq<char>, Option<Seq<char>>)) -> Seq<char> {
    "a="@ + a.0 + match a.1 {
        Some(v) => seq![':'] + v,
        None => Seq::empty(),
    }
}

/// The lines of a list of attributes.
pub open spec fn attr_contents(s: Seq<(Seq<char>, Option<Seq<char>>)>) -> Seq<Seq<char>> {
    Seq::new(s.len(), |i: int| attr_content(s[i]))
}

#[verifier::spinoff_prover]
#[verifier::rlimit(100)]
proof fn lemma_attribute_lines(s: Seq<(Seq<char>, Option<Seq<char>>)>)
    ensures
        attribute_lines(s) == lines_text(attr_contents(s)),
    decreases s.len(),
{
    if s.len() > 0 {
        lemma_attribute_lines(s.drop_last());
        assert(attr_contents(s).drop_last() =~= attr_contents(s.drop_last()));
        assert(attribute_line(s.last()) =~= attr_content(s.last()) + seq!['\n']);
        assert(lines_text(attr_contents(s.drop_last())) + attr_content(s.last()) + seq!['\n'] =~= lines_text(
            attr_contents(s.drop_last()),
        ) + (attr_content(s.last()) + seq!['\n']));
    } else {
        assert(attr_contents(s) =~= Seq::<Seq<char>>::empty());
    }
}

/// The line of a bandwidth entry, without its break.
pub open spec fn bw_content(b: (Seq<char>, u32)) -> Seq<char> {
    "b="@ + b.0 + seq![':'] + dec(b.1 as nat)
}

/// The lines of a list of bandwidth entries.
pub open spec fn bw_contents(s: Seq<(Seq<char>, u32)>) -> Seq<Seq<char>> {
    Seq::new(s.len(), |i: int| bw_content(s[i]))
}

#[verifier::spinoff_prover]
#[verifier::rlimit(100)]
proof fn lemma_bandwidth_lines(s: Seq<(Seq<char>, u32)>)
    ensures
        bandwidth_lines(s) == lines_text(bw_contents(s)),
    decreases s.len(),
{
    if s.len() > 0 {
        lemma_bandwidth_lines(s.drop_last());
        assert(bw_contents(s).drop_last() =~= bw_contents(s.drop_last()));
        assert(bandwidth_lines(s) =~= lines_text(bw_contents(s.drop_last())) + bw_content(s.last()) + seq!['\n']);
    } else {
        assert(bw_contents(s) =~= Seq::<Seq<char>>::empty());
    }
}

/// The `c=` line of a connection, without its break.
pub open spec fn conn_content(c: Seq<Seq<char>>) -> Seq<char> {
    "c="@ + join_words(c)
}

/// The lines of an optional connection.
pub open spec fn conn_lines(c: Option<Seq<Seq<char>>>) -> Seq<Seq<char>> {
    match c {
        Some(c) => seq![conn_content(c)],
        None => Seq::empty(),
    }
}

/// The `m=` line of a media description, without its break.
pub open spec fn media_head(m: MediaView) -> Seq<char> {
    "m="@ + media_type_name(m.media_type) + seq![' '] + dec(m.port as nat) + seq![' '] + m.protocol
        + spaced_words(m.formats)
}

/// The lines of a media description.
pub open spec fn media_lines(m: MediaView) -> Seq<Seq<char>> {
    seq![media_head(m)] + conn_lines(m.connection) + bw_contents(m.bandwidth) + attr_contents(m.attributes)
}

/// The lines of a list of media descriptions.
pub open spec fn medias_lines(s: Seq<MediaView>) -> Seq<Seq<char>>
    decreases s.len(),
{
    if s.len() == 0 {
        Seq::empty()
    } else {
        medias_lines(s.drop_last()) + media_lines(s.last())
    }
}

#[verifier::spinoff_prover]
#[verifier::rlimit(100)]
proof fn lemma_conn_lines(c: Option<Seq<Seq<char>>>)
    ensures
        lines_text(conn_lines(c)) == match c {
            Some(c) => connection_line(c),
            None => Seq::<char>::empty(),
        },
{
    match c {
        Some(w) => {
            lemma_lines_text_one(conn_content(w));
            assert(connection_line(w) =~= conn_content(w) + seq!['\n']);
        },
        None => {},
    }
}

#[verifier::spinoff_prover]
#[verifier::rlimit(100)]
proof fn lemma_media_text(m: MediaView)
    ensures
        media_text(m) == lines_text(media_lines(m)),
{
    let a = seq![media_head(m)];
    let b = conn_lines(m.connection);
    let c = bw_contents(m.bandwidth);
    let d = attr_contents(m.attributes);
    lemma_lines_text_concat(a + b + c, d);
    lemma_lines_text_concat(a + b, c);
    lemma_lines_text_concat(a, b);
    lemma_lines_text_one(media_head(m));
    lemma_conn_lines(m.connection);
    lemma_bandwidth_lines(m.bandwidth);
    lemma_attribute_lines(m.attributes);
    assert(media_text(m) =~= lines_text(a) + lines_text(b) + lines_text(c) + lines_text(d));
}

#[verifier::spinoff_prover]
#[verifier::rlimit(100)]
proof fn lemma_media_texts(s: Seq<MediaView>)
    ensures
        media_texts(s) == lines_text(medias_lines(s)),
    decreases s.len(),
{
    if s.len() > 0 {
        lemma_media_texts(s.drop_last());
        lemma_media_text(s.last());
        lemma_lines_text_concat(medias_lines(s.drop_last()), media_lines(s.last()));
    }
}

/// The session-level lines up to the timing line.
pub open spec fn head_lines(d: SdpView) -> Seq<Seq<char>> {
    seq!["v="@ + dec(d.version as nat), "o="@ + join_words(d.origin), "s="@ + d.session_name] + match d.session_info {
        Some(i) => seq!["i="@ + i],
        None => Seq::empty(),
    } + conn_lines(d.connection) + seq!["t="@ + dec(d.timing.start as nat) + seq![' '] + dec(d.timing.stop as nat)]
}

/// The lines of a description.
pub open spec fn sdp_lines(d: SdpView) -> Seq<Seq<char>> {
    head_lines(d) + attr_contents(d.attributes) + medias_lines(d.media)
}

#[verifier::spinoff_prover]
#[verifier::rlimit(100)]
proof fn lemma_head_text(d: SdpView)
    ensures
        sdp_head(d) == lines_text(head_lines(d)),
{
    let x1 = "v="@ + dec(d.version as nat);
    let x2 = "o="@ + join_words(d.origin);
    let x3 = "s="@ + d.session_name;
    let xt = "t="@ + dec(d.timing.start as nat) + seq![' '] + dec(d.timing.stop as nat);
    let li: Seq<Seq<char>> = match d.session_info {
        Some(i) => seq!["i="@ + i],
        None => Seq::empty(),
    };
    let lc = conn_lines(d.connection);
    let p3 = seq![x1, x2, x3];
    assert(head_lines(d) == p3 + li + lc + seq![xt]);
    lemma_lines_text_one(x1);
    lemma_lines_text_one(x2);
    lemma_lines_text_one(x3);
    lemma_lines_text_one(xt);
    lemma_lines_text_concat(seq![x1], seq![x2]);
    assert(seq![x1] + seq![x2] =~= seq![x1, x2]);
    lemma_lines_text_concat(seq![x1, x2], seq![x3]);
    assert(seq![x1, x2] + seq![x3] =~= p3);
    let t3 = x1 + seq!['\n'] + x2 + seq!['\n'] + x3 + seq!['\n'];
    assert(lines_text(p3) =~= t3);
    let ti: Seq<char> = match d.session_info {
        Some(i) => "i="@ + i + seq!['\n'],
        None => Seq::empty(),
    };
    let tc: Seq<char> = match d.connection {
        Some(c) => connection_line(c),
        None => Seq::empty(),
    };
    match d.session_info {
        Some(i) => lemma_lines_text_one("i="@ + i),
        None => {},
    }
    assert(lines_text(li) == ti);
    lemma_conn_lines(d.connection);
    assert(lines_text(lc) == tc);
    lemma_lines_text_concat(p3, li);
    lemma_lines_text_concat(p3 + li, lc);
    lemma_lines_text_concat(p3 + li + lc, seq![xt]);
    assert(lines_text(head_lines(d)) == t3 + ti + tc + (xt + seq!['\n']));
    assert(sdp_head(d) =~= t3 + ti + tc + (xt + seq!['\n']));
}

/// The text of a description is the text of its lines.
#[verifier::spinoff_prover]
#[verifier::rlimit(100)]
proof fn lemma_sdp_text_lines(d: SdpView)
    ensures
        sdp_text(d) == lines_text(sdp_lines(d)),
{
    lemma_head_text(d);
    lemma_attribute_lines(d.attributes);
    lemma_media_texts(d.media);
    lemma_lines_text_concat(head_lines(d) + attr_contents(d.attributes), medias_lines(d.media));
    lemma_lines_text_concat(head_lines(d), attr_contents(d.attributes));
}

// ---- what can be written and read back ----

/// Whether `s` has no `c`.
pub open spec fn lacks(s: Seq<char>, c: char) -> bool {
    forall|i: int| 0 <= i < s.len() ==> s[i] != c
}

/// Whether a text does not end with white space (an empty one does not).
pub open spec fn tail_ok(w: Seq<char>) -> bool {
    w.len() == 0 || !is_ws(w.last())
}

/// Whether every one of a list is a word.
pub open spec fn words_ok(w: Seq<Seq<char>>) -> bool {
    forall|i: int| 0 <= i < w.len() ==> is_word(#[trigger] w[i])
}

/// Whether an attribute reads back: a name without `:` or line break, and the text that
/// ends its line not ending with white space.
pub open spec fn attribute_ok(a: (Seq<char>, Option<Seq<char>>)) -> bool {
    &&& lacks(a.0, ':')
    &&& lacks(a.0, '\n')
    &&& match a.1 {
        Some(v) => lacks(v, '\n') && tail_ok(v),
        None => tail_ok(a.0),
    }
}

/// Whether a list of attributes reads back.
pub open spec fn attributes_ok(s: Seq<(Seq<char>, Option<Seq<char>>)>) -> bool {
    forall|i: int| 0 <= i < s.len() ==> attribute_ok(#[trigger] s[i])
}

/// Whether a list of bandwidth entries reads back: types without `:` or line break, none
/// twice.
pub open spec fn bandwidth_ok(s: Seq<(Seq<char>, u32)>) -> bool {
    &&& forall|i: int| 0 <= i < s.len() ==> lacks(#[trigger] s[i].0, ':') && lacks(s[i].0, '\n')
    &&& forall|i: int, j: int| 0 <= i < j < s.len() ==> #[trigger] s[i].0 != #[trigger] s[j].0
}

/// Whether an optional connection reads back: three words.
pub open spec fn connection_ok(c: Option<Seq<Seq<char>>>) -> bool {
    c matches Some(w) ==> w.len() == 3 && words_ok(w)
}

/// Whether a media description reads back: no port count (it is not written), a protocol
/// word, at least one format word, and fields that read back.
pub open spec fn media_ok(m: MediaView) -> bool {
    &&& m.num_ports is None
    &&& is_word(m.protocol)
    &&& m.formats.len() >= 1
    &&& words_ok(m.formats)
    &&& connection_ok(m.connection)
    &&& bandwidth_ok(m.bandwidth)
    &&& attributes_ok(m.attributes)
}

/// Whether a session description reads back as written: six origin words, a name and an
/// information line without line breaks that do not end with white space, and fields that
/// read back.
pub open spec fn printable(d: SdpView) -> bool {
    &&& d.origin.len() == 6
    &&& words_ok(d.origin)
    &&& lacks(d.session_name, '\n')
    &&& tail_ok(d.session_name)
    &&& (d.session_info matches Some(i) ==> lacks(i, '\n') && tail_ok(i))
    &&& connection_ok(d.connection)
    &&& attributes_ok(d.attributes)
    &&& forall|i: int| 0 <= i < d.media.len() ==> media_ok(#[trigger] d.media[i])
}

#[verifier::spinoff_prover]
#[verifier::rlimit(100)]
proof fn lemma_find_lacking(x: Seq<char>, y: Seq<char>, c: char, i: int)
    requires
        lacks(x, c),
        0 <= i <= x.len(),
    ensures
        find_from(x + seq![c] + y, c, i) == Some(x.len() as int),
        find_from(x, c, i) is None,
    decreases x.len() - i,
{
    let s = x + seq![c] + y;
    if i < x.len() {
        assert(s[i] == x[i]);
        lemma_find_lacking(x, y, c, i + 1);
    } else {
        assert(s[i] == c);
    }
}

/// A line made of a two-character prefix and a rest reads as its rest.
#[verifier::spinoff_prover]
#[verifier::rlimit(100)]
proof fn lemma_line_value(p: Seq<char>, v: Seq<char>)
    requires
        p.len() == 2,
    ensures
        (p + v).subrange(2, (p + v).len() as int) == v,
        (p + v)[0] == p[0],
        (p + v)[1] == p[1],
{
    assert((p + v).subrange(2, (p + v).len() as int) =~= v);
}

#[verifier::spinoff_prover]
#[verifier::rlimit(100)]
proof fn lemma_attribute_line_reads(a: (Seq<char>, Option<Seq<char>>))
    requires
        attribute_ok(a),
    ensures
        ({
            let t = attr_content(a);
            &&& trimmed(t) == t
            &&& t.len() >= 2 && t[0] == 'a' && t[1] == '='
            &&& attribute_decode(t.subrange(2, t.len() as int)) == a
            &&& lacks(t, '\n')
        }),
{
    reveal_strlit("a=");
    let v: Seq<char> = a.0 + match a.1 {
        Some(x) => seq![':'] + x,
        None => Seq::empty(),
    };
    let t = attr_content(a);
    assert(t =~= "a="@ + v);
    lemma_line_value("a="@, v);
    match a.1 {
        Some(x) => {
            lemma_find_lacking(a.0, x, ':', 0);
            assert(v =~= a.0 + seq![':'] + x);
            assert(v.subrange(0, a.0.len() as int) =~= a.0);
            assert(v.subrange(a.0.len() as int + 1, v.len() as int) =~= x);
        },
        None => {
            lemma_find_lacking(a.0, Seq::empty(), ':', 0);
            assert(v =~= a.0);
        },
    }
    assert(!is_ws(t.last()));
    lemma_trimmed_same(t);
}

/// Reading the attribute lines of a session reads the attributes.
#[verifier::spinoff_prover]
#[verifier::rlimit(100)]
proof fn lemma_fold_session_attrs(a: SdpAcc, s: Seq<(Seq<char>, Option<Seq<char>>)>)
    requires
        a.current is None,
        attributes_ok(s),
    ensures
        fold_more(Ok(a), attr_contents(s)) == Ok::<SdpAcc, SdpParseError>(SdpAcc { attributes: a.attributes + s, ..a }),
    decreases s.len(),
{
    if s.len() == 0 {
        assert(attr_contents(s) =~= Seq::<Seq<char>>::empty());
        assert(a.attributes + s =~= a.attributes);
    } else {
        let s1 = s.drop_last();
        assert(attributes_ok(s1)) by {
            assert forall|i: int| 0 <= i < s1.len() implies attribute_ok(#[trigger] s1[i]) by {
                assert(s1[i] == s[i]);
            }
        }
        lemma_fold_session_attrs(a, s1);
        assert(attr_contents(s).drop_last() =~= attr_contents(s1));
        assert(attribute_ok(s[s.len() - 1]));
        lemma_attribute_line_reads(s.last());
        assert(attr_contents(s).last() == attr_content(s.last()));
        assert(a.attributes + s1 + seq![s.last()] =~= a.attributes + s);
        assert((a.attributes + s1).push(s.last()) =~= a.attributes + s);
    }
}

/// Reading the attribute lines of a media description reads its attributes.
#[verifier::spinoff_prover]
#[verifier::rlimit(100)]
proof fn lemma_fold_media_attrs(a: SdpAcc, m: MediaView, s: Seq<(Seq<char>, Option<Seq<char>>)>)
    requires
        a.current == Some(m),
        attributes_ok(s),
    ensures
        fold_more(Ok(a), attr_contents(s)) == Ok::<SdpAcc, SdpParseError>(
            SdpAcc { current: Some(MediaView { attributes: m.attributes + s, ..m }), ..a },
        ),
    decreases s.len(),
{
    if s.len() == 0 {
        assert(attr_contents(s) =~= Seq::<Seq<char>>::empty());
        assert(m.attributes + s =~= m.attributes);
        assert(MediaView { attributes: m.attributes + s, ..m } == m);
    } else {
        let s1 = s.drop_last();
        assert(attributes_ok(s1)) by {
            assert forall|i: int| 0 <= i < s1.len() implies attribute_ok(#[trigger] s1[i]) by {
                assert(s1[i] == s[i]);
            }
        }
        lemma_fold_media_attrs(a, m, s1);
        assert(attr_contents(s).drop_last() =~= attr_contents(s1));
        assert(attribute_ok(s[s.len() - 1]));
        lemma_attribute_line_reads(s.last());
        assert(attr_contents(s).last() == attr_content(s.last()));
        assert((m.attributes + s1).push(s.last()) =~= m.attributes + s);
    }
}

#[verifier::spinoff_prover]
#[verifier::rlimit(100)]
proof fn lemma_find_key_absent(b: Seq<(Seq<char>, u32)>, key: Seq<char>)
    requires
        forall|i: int| 0 <= i < b.len() ==> #[trigger] b[i].0 != key,
    ensures
        find_key(b, key) == -1,
    decreases b.len(),
{
    if b.len() > 0 {
        assert(b[b.len() - 1].0 != key);
        lemma_find_key_absent(b.drop_last(), key);
    }
}

#[verifier::spinoff_prover]
#[verifier::rlimit(100)]
proof fn lemma_digits_plain(n: nat)
    ensures
        forall|i: int| 0 <= i < dec(n).len() ==> !is_ws(#[trigger] dec(n)[i]) && dec(n)[i] != ':' && dec(n)[i]
            != '/' && dec(n)[i] != '\n',
        is_word(dec(n)),
        lacks(dec(n), '\n'),
{
    lemma_dec_digits(n);
    assert forall|i: int| 0 <= i < dec(n).len() implies !is_ws(#[trigger] dec(n)[i]) && dec(n)[i] != ':'
        && dec(n)[i] != '/' && dec(n)[i] != '\n' by {
        assert(is_digit(dec(n)[i]));
    }
}

#[verifier::spinoff_prover]
#[verifier::rlimit(100)]
proof fn lemma_bandwidth_line_reads(b: (Seq<char>, u32))
    requires
        lacks(b.0, ':'),
        lacks(b.0, '\n'),
    ensures
        ({
            let t = bw_content(b);
            let v = t.subrange(2, t.len() as int);
            &&& trimmed(t) == t
            &&& t.len() >= 2 && t[0] == 'b' && t[1] == '='
            &&& find_from(v, ':', 0) == Some(b.0.len() as int)
            &&& v.subrange(0, b.0.len() as int) == b.0
            &&& uint_or_zero(v.subrange(b.0.len() as int + 1, v.len() as int), u32::MAX as nat) == b.1
            &&& lacks(t, '\n')
        }),
{
    reveal_strlit("b=");
    let d = dec(b.1 as nat);
    let v = b.0 + seq![':'] + d;
    let t = bw_content(b);
    assert(t =~= "b="@ + v);
    lemma_line_value("b="@, v);
    lemma_find_lacking(b.0, d, ':', 0);
    assert(v.subrange(0, b.0.len() as int) =~= b.0);
    assert(v.subrange(b.0.len() as int + 1, v.len() as int) =~= d);
    lemma_dec_parses(b.1 as nat, u32::MAX as nat);
    lemma_digits_plain(b.1 as nat);
    assert(d.len() >= 1);
    assert(t.last() == d.last());
    assert(!is_ws(d[d.len() - 1]));
    lemma_trimmed_same(t);
}

#[verifier::spinoff_prover]
#[verifier::rlimit(100)]
proof fn lemma_bandwidth_ok_prefix(s: Seq<(Seq<char>, u32)>)
    requires
        bandwidth_ok(s),
        s.len() > 0,
    ensures
        bandwidth_ok(s.drop_last()),
        forall|i: int| 0 <= i < s.len() - 1 ==> #[trigger] s.drop_last()[i].0 != s[s.len() - 1].0,
{
    let s1 = s.drop_last();
    assert forall|i: int| 0 <= i < s1.len() implies lacks(#[trigger] s1[i].0, ':') && lacks(s1[i].0, '\n') by {
        assert(s1[i] == s[i]);
    }
    assert forall|i: int, j: int| 0 <= i < j < s1.len() implies #[trigger] s1[i].0 != #[trigger] s1[j].0 by {
        assert(s1[i] == s[i] && s1[j] == s[j]);
    }
    assert forall|i: int| 0 <= i < s.len() - 1 implies #[trigger] s.drop_last()[i].0 != s[s.len() - 1].0 by {
        assert(s1[i] == s[i]);
    }
}

/// Reading the bandwidth lines of a media description with none yet reads its entries.
#[verifier::spinoff_prover]
#[verifier::rlimit(100)]
proof fn lemma_fold_media_bandwidth(a: SdpAcc, m: MediaView, s: Seq<(Seq<char>, u32)>)
    requires
        a.current == Some(m),
        m.bandwidth == Seq::<(Seq<char>, u32)>::empty(),
        bandwidth_ok(s),
    ensures
        fold_more(Ok(a), bw_contents(s)) == Ok::<SdpAcc, SdpParseError>(
            SdpAcc { current: Some(MediaView { bandwidth: s, ..m }), ..a },
        ),
    decreases s.len(),
{
    if s.len() == 0 {
        assert(bw_contents(s) =~= Seq::<Seq<char>>::empty());
        assert(s =~= Seq::<(Seq<char>, u32)>::empty());
        assert(MediaView { bandwidth: s, ..m } == m);
    } else {
        let s1 = s.drop_last();
        lemma_bandwidth_ok_prefix(s);
        lemma_fold_media_bandwidth(a, m, s1);
        assert(bw_contents(s).drop_last() =~= bw_contents(s1));
        let last = s[s.len() - 1];
        assert(lacks(last.0, ':') && lacks(last.0, '\n'));
        lemma_bandwidth_line_reads(last);
        assert(bw_contents(s).last() == bw_content(last));
        lemma_find_key_absent(s1, last.0);
        assert(s1.push((last.0, last.1)) =~= s);
    }
}

#[verifier::spinoff_prover]
#[verifier::rlimit(100)]
proof fn lemma_media_type_reads(t: MediaType)
    ensures
        media_type_of(media_type_name(t)) == t,
        is_word(media_type_name(t)),
{
    reveal_strlit("audio");
    reveal_strlit("video");
    reveal_strlit("application");
    reveal_strlit("message");
    reveal_strlit("other");
    assert(lower_seq("audio"@) =~= "audio"@);
    assert(lower_seq("video"@) =~= "video"@);
    assert(lower_seq("application"@) =~= "application"@);
    assert(lower_seq("message"@) =~= "message"@);
    assert(lower_seq("other"@) =~= "other"@);
    assert("other"@ != "audio"@ && "other"@ != "video"@ && "other"@ != "application"@ && "other"@ != "message"@) by {
        assert("other"@[0] != "audio"@[0]);
        assert("other"@.len() != "video"@.len() || "other"@[0] != "video"@[0]);
        assert("other"@.len() != "application"@.len());
        assert("other"@[0] != "message"@[0]);
    }
    assert("audio"@ != "video"@ && "audio"@ != "application"@ && "audio"@ != "message"@) by {
        assert("audio"@[0] != "video"@[0]);
        assert("audio"@.len() != "application"@.len());
        assert("audio"@[0] != "message"@[0]);
    }
    assert("video"@ != "application"@ && "video"@ != "message"@) by {
        assert("video"@.len() != "application"@.len());
        assert("video"@[0] != "message"@[0]);
    }
    assert("application"@ != "message"@) by {
        assert("application"@.len() != "message"@.len());
    }
}

/// A line that starts with a two-character prefix and ends with a word reads as itself.
#[verifier::spinoff_prover]
#[verifier::rlimit(100)]
proof fn lemma_word_end_trimmed(p: Seq<char>, v: Seq<char>, w: Seq<char>)
    requires
        p.len() == 2,
        !is_ws(p[0]),
        is_word(w),
        v.len() >= w.len(),
        v.subrange(v.len() - w.len(), v.len() as int) == w,
    ensures
        trimmed(p + v) == p + v,
{
    assert((p + v).last() == w.last()) by {
        assert(v.last() == v.subrange(v.len() - w.len(), v.len() as int)[w.len() - 1]);
    }
    assert(!is_ws(w[w.len() - 1]));
    lemma_trimmed_same(p + v);
}

#[verifier::spinoff_prover]
#[verifier::rlimit(100)]
proof fn lemma_words_lack_nl(w: Seq<Seq<char>>)
    requires
        words_ok(w),
    ensures
        lacks(join_words(w), '\n'),
    decreases w.len(),
{
    if w.len() == 1 {
        assert(is_word(w[0]));
    } else if w.len() > 1 {
        lemma_words_lack_nl(w.drop_last());
        assert(is_word(w[w.len() - 1]));
        assert(words_ok(w.drop_last())) by {
            assert forall|i: int| 0 <= i < w.drop_last().len() implies is_word(#[trigger] w.drop_last()[i]) by {
                assert(w.drop_last()[i] == w[i]);
            }
        }
        lemma_words_lack_nl(w.drop_last());
        let j = join_words(w.drop_last()) + seq![' '] + w.last();
        assert forall|i: int| 0 <= i < j.len() implies j[i] != '\n' by {
            if i >= join_words(w.drop_last()).len() + 1 {
                assert(j[i] == w.last()[i - join_words(w.drop_last()).len() - 1]);
            }
        }
    }
}

#[verifier::spinoff_prover]
#[verifier::rlimit(100)]
proof fn lemma_join_ends_with_last(w: Seq<Seq<char>>)
    requires
        w.len() >= 1,
    ensures
        join_words(w).len() >= w.last().len(),
        join_words(w).subrange(join_words(w).len() - w.last().len(), join_words(w).len() as int) == w.last(),
{
    let j = join_words(w);
    if w.len() == 1 {
        assert(j.subrange(0, j.len() as int) =~= j);
    } else {
        assert(j.subrange(j.len() - w.last().len(), j.len() as int) =~= w.last());
    }
}

#[verifier::spinoff_prover]
#[verifier::rlimit(100)]
proof fn lemma_media_head_reads(m: MediaView)
    requires
        media_ok(m),
    ensures
        ({
            let t = media_head(m);
            &&& trimmed(t) == t
            &&& t.len() >= 2 && t[0] == 'm' && t[1] == '='
            &&& media_decode(t.subrange(2, t.len() as int)) == Ok::<MediaView, SdpParseError>(
                MediaView {
                    connection: None,
                    bandwidth: Seq::empty(),
                    attributes: Seq::empty(),
                    ..m
                },
            )
            &&& lacks(t, '\n')
        }),
{
    reveal_strlit("m=");
    let tn = media_type_name(m.media_type);
    let dp = dec(m.port as nat);
    let x = seq![tn, dp, m.protocol];
    lemma_media_type_reads(m.media_type);
    lemma_digits_plain(m.port as nat);
    assert(join_words(x.drop_last()) =~= tn + seq![' '] + dp) by {
        let y = x.drop_last();
        assert(y =~= seq![tn, dp]);
        assert(y.drop_last() =~= seq![tn]);
        assert(join_words(seq![tn]) == tn);
        assert(y.last() == dp);
    }
    let v = join_words(x) + spaced_words(m.formats);
    assert(join_words(x) =~= tn + seq![' '] + dp + seq![' '] + m.protocol);
    lemma_spaced_words(x, m.formats);
    let w = x + m.formats;
    assert(words_ok(w)) by {
        assert forall|i: int| 0 <= i < w.len() implies is_word(#[trigger] w[i]) by {
            if i >= 3 {
                assert(w[i] == m.formats[i - 3]);
            }
        }
    }
    lemma_join_words_split(w);
    let t = media_head(m);
    assert(t =~= "m="@ + v);
    lemma_line_value("m="@, v);
    assert(w[1] == dp);
    lemma_find_lacking(dp, Seq::empty(), '/', 0);
    lemma_dec_parses(m.port as nat, 65535);
    assert(media_port_decode(dp) == Some((m.port, None::<u16>)));
    assert(w.subrange(3, w.len() as int) =~= m.formats);
    lemma_join_ends_with_last(w);
    assert(w.last() == m.formats.last());
    assert(is_word(m.formats[m.formats.len() - 1]));
    lemma_word_end_trimmed("m="@, v, w.last());
    lemma_words_lack_nl(w);
}

#[verifier::spinoff_prover]
#[verifier::rlimit(100)]
proof fn lemma_fold_single(r: Result<SdpAcc, SdpParseError>, x: Seq<char>)
    ensures
        fold_more(r, seq![x]) == match r {
            Err(e) => Err(e),
            Ok(a) => sdp_line_step(a, trimmed(x)),
        },
{
    assert(seq![x].drop_last() =~= Seq::<Seq<char>>::empty());
    assert(fold_more(r, Seq::<Seq<char>>::empty()) == r);
    assert(seq![x].last() == x);
}

#[verifier::spinoff_prover]
#[verifier::rlimit(100)]
proof fn lemma_connection_line_reads(c: Seq<Seq<char>>)
    requires
        c.len() == 3,
        words_ok(c),
    ensures
        ({
            let t = conn_content(c);
            &&& trimmed(t) == t
            &&& t.len() >= 2 && t[0] == 'c' && t[1] == '='
            &&& connection_decode(t.subrange(2, t.len() as int)) == Ok::<Seq<Seq<char>>, SdpParseError>(c)
            &&& lacks(t, '\n')
        }),
{
    reveal_strlit("c=");
    let v = join_words(c);
    let p = "c="@;
    assert(p.len() == 2 && p[0] == 'c' && p[1] == '=');
    let t = conn_content(c);
    assert(t == p + v);
    lemma_join_words_split(c);
    assert(split_ws(v) == c);
    assert(c.take(3) =~= c);
    assert(connection_decode(v) == Ok::<Seq<Seq<char>>, SdpParseError>(c));
    lemma_line_value(p, v);
    lemma_join_ends_with_last(c);
    assert(is_word(c[2]));
    lemma_word_end_trimmed(p, v, c.last());
    lemma_words_lack_nl(c);
    assert forall|i: int| 0 <= i < t.len() implies t[i] != '\n' by {
        if i >= 2 {
            assert(t[i] == v[i - 2]);
        }
    }
}

#[verifier::spinoff_prover]
#[verifier::rlimit(100)]
/// Reading the lines of a media description: the description before it, if any, is kept,
/// and it becomes the one being read.
proof fn lemma_fold_media(a: SdpAcc, m: MediaView)
    requires
        media_ok(m),
    ensures
        fold_more(Ok(a), media_lines(m)) == Ok::<SdpAcc, SdpParseError>(
            SdpAcc {
                media: match a.current {
                    Some(c) => a.media.push(c),
                    None => a.media,
                },
                current: Some(m),
                ..a
            },
        ),
{
    let m0 = MediaView { connection: None, bandwidth: Seq::empty(), attributes: Seq::empty(), ..m };
    let a1 = SdpAcc {
        media: match a.current {
            Some(c) => a.media.push(c),
            None => a.media,
        },
        current: Some(m0),
        ..a
    };
    lemma_media_head_reads(m);
    lemma_fold_single(Ok(a), media_head(m));
    let h = seq![media_head(m)];
    let cl = conn_lines(m.connection);
    let bl = bw_contents(m.bandwidth);
    let al = attr_contents(m.attributes);
    assert(fold_more(Ok(a), h) == Ok::<SdpAcc, SdpParseError>(a1));
    let m1 = MediaView { connection: m.connection, ..m0 };
    let a2 = SdpAcc { current: Some(m1), ..a1 };
    match m.connection {
        Some(c) => {
            lemma_connection_line_reads(c);
            lemma_fold_single(Ok(a1), conn_content(c));
        },
        None => {
            assert(cl =~= Seq::<Seq<char>>::empty());
            assert(m1 == m0);
        },
    }
    assert(fold_more(Ok(a1), cl) == Ok::<SdpAcc, SdpParseError>(a2));
    lemma_fold_media_bandwidth(a2, m1, m.bandwidth);
    let m2 = MediaView { bandwidth: m.bandwidth, ..m1 };
    let a3 = SdpAcc { current: Some(m2), ..a2 };
    lemma_fold_media_attrs(a3, m2, m.attributes);
    assert(Seq::<(Seq<char>, Option<Seq<char>>)>::empty() + m.attributes =~= m.attributes);
    assert(MediaView { attributes: m2.attributes + m.attributes, ..m2 } == m);
    lemma_fold_more_concat(Ok(a), h + cl + bl, al);
    lemma_fold_more_concat(Ok(a), h + cl, bl);
    lemma_fold_more_concat(Ok(a), h, cl);
}

/// Reading the lines of a list of media descriptions: all but the last are kept, and the
/// last is the one being read.
#[verifier::spinoff_prover]
#[verifier::rlimit(100)]
proof fn lemma_fold_medias(a: SdpAcc, s: Seq<MediaView>)
    requires
        a.current is None,
        forall|i: int| 0 <= i < s.len() ==> media_ok(#[trigger] s[i]),
    ensures
        fold_more(Ok(a), medias_lines(s)) == Ok::<SdpAcc, SdpParseError>(
            if s.len() == 0 {
                a
            } else {
                SdpAcc { media: a.media + s.drop_last(), current: Some(s.last()), ..a }
            },
        ),
    decreases s.len(),
{
    if s.len() > 0 {
        let s1 = s.drop_last();
        assert forall|i: int| 0 <= i < s1.len() implies media_ok(#[trigger] s1[i]) by {
            assert(s1[i] == s[i]);
        }
        lemma_fold_medias(a, s1);
        let a1 = if s1.len() == 0 {
            a
        } else {
            SdpAcc { media: a.media + s1.drop_last(), current: Some(s1.last()), ..a }
        };
        lemma_fold_more_concat(Ok(a), medias_lines(s1), media_lines(s.last()));
        assert(media_ok(s[s.len() - 1]));
        lemma_fold_media(a1, s.last());
        if s1.len() == 0 {
            assert(a.media + s.drop_last() =~= a.media);
        } else {
            assert((a.media + s1.drop_last()).push(s1.last()) =~= a.media + s.drop_last());
        }
    }
}

/// What the session-level lines give.
pub open spec fn head_acc(d: SdpView) -> SdpAcc {
    SdpAcc {
        version: Some(d.version),
        origin: Some(d.origin),
        session_name: Some(d.session_name),
        session_info: d.session_info,
        connection: d.connection,
        timing: Some(d.timing),
        attributes: Seq::empty(),
        media: Seq::empty(),
        current: None,
    }
}

/// A line of a prefix and a text without line break that does not end with white space
/// reads as itself.
#[verifier::spinoff_prover]
#[verifier::rlimit(100)]
proof fn lemma_text_line(p: Seq<char>, v: Seq<char>)
    requires
        p.len() == 2,
        !is_ws(p[0]),
        !is_ws(p[1]),
        p[0] != '\n' && p[1] != '\n',
        lacks(v, '\n'),
        tail_ok(v),
    ensures
        trimmed(p + v) == p + v,
        (p + v).subrange(2, (p + v).len() as int) == v,
        lacks(p + v, '\n'),
{
    lemma_line_value(p, v);
    let t = p + v;
    if v.len() > 0 {
        assert(t.last() == v.last());
    } else {
        assert(t.last() == p[1]);
    }
    lemma_trimmed_same(t);
    assert forall|i: int| 0 <= i < t.len() implies t[i] != '\n' by {
        if i >= 2 {
            assert(t[i] == v[i - 2]);
        }
    }
}

#[verifier::spinoff_prover]
#[verifier::rlimit(100)]
proof fn lemma_timing_line_reads(start: u64, stop: u64)
    ensures
        ({
            let t = "t="@ + dec(start as nat) + seq![' '] + dec(stop as nat);
            &&& trimmed(t) == t
            &&& t.len() >= 2 && t[0] == 't' && t[1] == '='
            &&& timing_decode(t.subrange(2, t.len() as int)) == Ok::<crate::sdp::parser::Timing, SdpParseError>(
                crate::sdp::parser::Timing { start, stop },
            )
            &&& lacks(t, '\n')
        }),
{
    reveal_strlit("t=");
    let a = dec(start as nat);
    let b = dec(stop as nat);
    let v = a + seq![' '] + b;
    let t = "t="@ + dec(start as nat) + seq![' '] + dec(stop as nat);
    assert(t =~= "t="@ + v);
    lemma_digits_plain(start as nat);
    lemma_digits_plain(stop as nat);
    lemma_split_ws_concat(a, b);
    lemma_split_ws_word(a);
    lemma_split_ws_word(b);
    assert(split_ws(v) =~= seq![a, b]);
    lemma_dec_parses(start as nat, u64::MAX as nat);
    lemma_dec_parses(stop as nat, u64::MAX as nat);
    lemma_line_value("t="@, v);
    assert(v.subrange(v.len() - b.len(), v.len() as int) =~= b);
    lemma_word_end_trimmed("t="@, v, b);
    assert forall|i: int| 0 <= i < t.len() implies t[i] != '\n' by {
        if i >= 2 && i < 2 + a.len() {
            assert(t[i] == a[i - 2]);
        } else if i >= 3 + a.len() {
            assert(t[i] == b[i - 3 - a.len()]);
        }
    }
}

#[verifier::spinoff_prover]
#[verifier::rlimit(100)]
proof fn lemma_version_line_reads(version: u8)
    ensures
        ({
            let t = "v="@ + dec(version as nat);
            &&& trimmed(t) == t
            &&& t.len() >= 2 && t[0] == 'v' && t[1] == '='
            &&& t.subrange(2, t.len() as int) == dec(version as nat)
            &&& crate::text::parse_uint(dec(version as nat), 255) == Some(version as nat)
            &&& lacks(t, '\n')
        }),
{
    reveal_strlit("v=");
    let v = dec(version as nat);
    lemma_digits_plain(version as nat);
    lemma_dec_parses(version as nat, 255);
    lemma_line_value("v="@, v);
    assert(v.subrange(0, v.len() as int) =~= v);
    lemma_word_end_trimmed("v="@, v, v);
    let t = "v="@ + v;
    assert forall|i: int| 0 <= i < t.len() implies t[i] != '\n' by {
        if i >= 2 {
            assert(t[i] == v[i - 2]);
        }
    }
}

#[verifier::spinoff_prover]
#[verifier::rlimit(100)]
proof fn lemma_origin_line_reads(o: Seq<Seq<char>>)
    requires
        o.len() == 6,
        words_ok(o),
    ensures
        ({
            let t = "o="@ + join_words(o);
            &&& trimmed(t) == t
            &&& t.len() >= 2 && t[0] == 'o' && t[1] == '='
            &&& origin_decode(t.subrange(2, t.len() as int)) == Ok::<Seq<Seq<char>>, SdpParseError>(o)
            &&& lacks(t, '\n')
        }),
{
    reveal_strlit("o=");
    let v = join_words(o);
    let p = "o="@;
    assert(p.len() == 2 && p[0] == 'o' && p[1] == '=');
    let t = p + v;
    lemma_join_words_split(o);
    assert(split_ws(v) == o);
    assert(o.take(6) =~= o);
    assert(origin_decode(v) == Ok::<Seq<Seq<char>>, SdpParseError>(o));
    lemma_line_value(p, v);
    lemma_join_ends_with_last(o);
    assert(is_word(o[5]));
    lemma_word_end_trimmed(p, v, o.last());
    lemma_words_lack_nl(o);
    assert forall|i: int| 0 <= i < t.len() implies t[i] != '\n' by {
        if i >= 2 {
            assert(t[i] == v[i - 2]);
        }
    }
}

#[verifier::spinoff_prover]
#[verifier::rlimit(100)]
proof fn lemma_fold_head(d: SdpView)
    requires
        printable(d),
    ensures
        fold_more(Ok(sdp_acc_empty()), head_lines(d)) == Ok::<SdpAcc, SdpParseError>(head_acc(d)),
{
    reveal_strlit("s=");
    reveal_strlit("i=");
    let x1 = "v="@ + dec(d.version as nat);
    let x2 = "o="@ + join_words(d.origin);
    let x3 = "s="@ + d.session_name;
    let xt = "t="@ + dec(d.timing.start as nat) + seq![' '] + dec(d.timing.stop as nat);
    let li: Seq<Seq<char>> = match d.session_info {
        Some(i) => seq!["i="@ + i],
        None => Seq::empty(),
    };
    let lc = conn_lines(d.connection);
    let p3 = seq![x1, x2, x3];
    assert(head_lines(d) == p3 + li + lc + seq![xt]);
    let e = sdp_acc_empty();
    let a1 = SdpAcc { version: Some(d.version), ..e };
    lemma_version_line_reads(d.version);
    lemma_fold_single(Ok(e), x1);
    assert(fold_more(Ok(e), seq![x1]) == Ok::<SdpAcc, SdpParseError>(a1));
    let a2 = SdpAcc { origin: Some(d.origin), ..a1 };
    lemma_origin_line_reads(d.origin);
    lemma_fold_single(Ok(a1), x2);
    let a3 = SdpAcc { session_name: Some(d.session_name), ..a2 };
    assert("s="@.len() == 2 && "s="@[0] == 's' && "s="@[1] == '=');
    lemma_text_line("s="@, d.session_name);
    lemma_fold_single(Ok(a2), x3);
    lemma_fold_more_concat(Ok(e), seq![x1], seq![x2]);
    assert(seq![x1] + seq![x2] =~= seq![x1, x2]);
    lemma_fold_more_concat(Ok(e), seq![x1, x2], seq![x3]);
    assert(seq![x1, x2] + seq![x3] =~= p3);
    assert(fold_more(Ok(e), p3) == Ok::<SdpAcc, SdpParseError>(a3));
    let a4 = SdpAcc { session_info: d.session_info, ..a3 };
    match d.session_info {
        Some(i) => {
            assert("i="@.len() == 2 && "i="@[0] == 'i' && "i="@[1] == '=');
            lemma_text_line("i="@, i);
            lemma_fold_single(Ok(a3), "i="@ + i);
        },
        None => {
            assert(li =~= Seq::<Seq<char>>::empty());
        },
    }
    assert(fold_more(Ok(a3), li) == Ok::<SdpAcc, SdpParseError>(a4));
    let a5 = SdpAcc { connection: d.connection, ..a4 };
    match d.connection {
        Some(c) => {
            lemma_connection_line_reads(c);
            lemma_fold_single(Ok(a4), conn_content(c));
        },
        None => {},
    }
    assert(fold_more(Ok(a4), lc) == Ok::<SdpAcc, SdpParseError>(a5));
    let a6 = SdpAcc { timing: Some(d.timing), ..a5 };
    lemma_timing_line_reads(d.timing.start, d.timing.stop);
    lemma_fold_single(Ok(a5), xt);
    assert(fold_more(Ok(a5), seq![xt]) == Ok::<SdpAcc, SdpParseError>(a6));
    lemma_fold_more_concat(Ok(e), p3, li);
    lemma_fold_more_concat(Ok(e), p3 + li, lc);
    lemma_fold_more_concat(Ok(e), p3 + li + lc, seq![xt]);
    assert(a6 == head_acc(d));
}

/// Whether no line of a list has a line break.
pub open spec fn all_no_nl(ls: Seq<Seq<char>>) -> bool {
    forall|k: int| 0 <= k < ls.len() ==> no_nl(#[trigger] ls[k])
}

#[verifier::spinoff_prover]
#[verifier::rlimit(100)]
proof fn lemma_all_no_nl_concat(a: Seq<Seq<char>>, b: Seq<Seq<char>>)
    requires
        all_no_nl(a),
        all_no_nl(b),
    ensures
        all_no_nl(a + b),
{
    assert forall|k: int| 0 <= k < (a + b).len() implies no_nl(#[trigger] (a + b)[k]) by {
        if k < a.len() {
            assert((a + b)[k] == a[k]);
        } else {
            assert((a + b)[k] == b[k - a.len()]);
        }
    }
}

#[verifier::spinoff_prover]
#[verifier::rlimit(100)]
proof fn lemma_attr_contents_no_nl(s: Seq<(Seq<char>, Option<Seq<char>>)>)
    requires
        attributes_ok(s),
    ensures
        all_no_nl(attr_contents(s)),
{
    assert forall|k: int| 0 <= k < attr_contents(s).len() implies no_nl(#[trigger] attr_contents(s)[k]) by {
        assert(attribute_ok(s[k]));
        lemma_attribute_line_reads(s[k]);
    }
}

#[verifier::spinoff_prover]
#[verifier::rlimit(100)]
proof fn lemma_bw_contents_no_nl(s: Seq<(Seq<char>, u32)>)
    requires
        bandwidth_ok(s),
    ensures
        all_no_nl(bw_contents(s)),
{
    assert forall|k: int| 0 <= k < bw_contents(s).len() implies no_nl(#[trigger] bw_contents(s)[k]) by {
        assert(lacks(s[k].0, ':') && lacks(s[k].0, '\n'));
        lemma_bandwidth_line_reads(s[k]);
    }
}

#[verifier::spinoff_prover]
#[verifier::rlimit(100)]
proof fn lemma_conn_lines_no_nl(c: Option<Seq<Seq<char>>>)
    requires
        connection_ok(c),
    ensures
        all_no_nl(conn_lines(c)),
{
    match c {
        Some(w) => {
            lemma_connection_line_reads(w);
            assert(conn_lines(c)[0] == conn_content(w));
        },
        None => {},
    }
}

#[verifier::spinoff_prover]
#[verifier::rlimit(100)]
proof fn lemma_media_lines_no_nl(m: MediaView)
    requires
        media_ok(m),
    ensures
        all_no_nl(media_lines(m)),
{
    lemma_media_head_reads(m);
    assert(all_no_nl(seq![media_head(m)]));
    lemma_conn_lines_no_nl(m.connection);
    lemma_bw_contents_no_nl(m.bandwidth);
    lemma_attr_contents_no_nl(m.attributes);
    lemma_all_no_nl_concat(seq![media_head(m)], conn_lines(m.connection));
    lemma_all_no_nl_concat(seq![media_head(m)] + conn_lines(m.connection), bw_contents(m.bandwidth));
    lemma_all_no_nl_concat(
        seq![media_head(m)] + conn_lines(m.connection) + bw_contents(m.bandwidth),
        attr_contents(m.attributes),
    );
}

#[verifier::spinoff_prover]
#[verifier::rlimit(100)]
proof fn lemma_medias_no_nl(s: Seq<MediaView>)
    requires
        forall|i: int| 0 <= i < s.len() ==> media_ok(#[trigger] s[i]),
    ensures
        all_no_nl(medias_lines(s)),
    decreases s.len(),
{
    if s.len() > 0 {
        let s1 = s.drop_last();
        assert forall|i: int| 0 <= i < s1.len() implies media_ok(#[trigger] s1[i]) by {
            assert(s1[i] == s[i]);
        }
        lemma_medias_no_nl(s1);
        assert(media_ok(s[s.len() - 1]));
        lemma_media_lines_no_nl(s.last());
        lemma_all_no_nl_concat(medias_lines(s1), media_lines(s.last()));
    }
}

#[verifier::spinoff_prover]
#[verifier::rlimit(100)]
proof fn lemma_head_no_nl(d: SdpView)
    requires
        printable(d),
    ensures
        all_no_nl(head_lines(d)),
{
    reveal_strlit("s=");
    reveal_strlit("i=");
    let x1 = "v="@ + dec(d.version as nat);
    let x2 = "o="@ + join_words(d.origin);
    let x3 = "s="@ + d.session_name;
    let xt = "t="@ + dec(d.timing.start as nat) + seq![' '] + dec(d.timing.stop as nat);
    let li: Seq<Seq<char>> = match d.session_info {
        Some(i) => seq!["i="@ + i],
        None => Seq::empty(),
    };
    let lc = conn_lines(d.connection);
    let p3 = seq![x1, x2, x3];
    assert(head_lines(d) == p3 + li + lc + seq![xt]);
    lemma_version_line_reads(d.version);
    lemma_origin_line_reads(d.origin);
    assert("s="@.len() == 2 && "s="@[0] == 's' && "s="@[1] == '=');
    lemma_text_line("s="@, d.session_name);
    assert(all_no_nl(p3));
    match d.session_info {
        Some(i) => {
            assert("i="@.len() == 2 && "i="@[0] == 'i' && "i="@[1] == '=');
            lemma_text_line("i="@, i);
        },
        None => {},
    }
    assert(all_no_nl(li));
    lemma_conn_lines_no_nl(d.connection);
    lemma_timing_line_reads(d.timing.start, d.timing.stop);
    assert(all_no_nl(seq![xt]));
    lemma_all_no_nl_concat(p3, li);
    lemma_all_no_nl_concat(p3 + li, lc);
    lemma_all_no_nl_concat(p3 + li + lc, seq![xt]);
}

/// A written session description reads back as itself: whenever its fields can be written
/// without running into the separators (`printable`), parsing the text that
/// `to_sdp_string` writes for it gives it back.
#[verifier::spinoff_prover]
#[verifier::rlimit(100)]
pub proof fn lemma_sdp_round_trip(d: SdpView)
    requires
        printable(d),
    ensures
        sdp_decode(sdp_text(d)) == Ok::<SdpView, SdpParseError>(d),
{
    let l = sdp_lines(d);
    lemma_sdp_text_lines(d);
    lemma_head_no_nl(d);
    lemma_attr_contents_no_nl(d.attributes);
    lemma_medias_no_nl(d.media);
    lemma_all_no_nl_concat(head_lines(d), attr_contents(d.attributes));
    lemma_all_no_nl_concat(head_lines(d) + attr_contents(d.attributes), medias_lines(d.media));
    lemma_lines_split(l);
    let empty_line = Seq::<char>::empty();
    assert(l.push(empty_line) =~= l + seq![empty_line]);
    lemma_fold_concat(l, seq![empty_line]);
    lemma_fold_concat(Seq::<Seq<char>>::empty(), l);
    assert(Seq::<Seq<char>>::empty() + l =~= l);
    let e = sdp_acc_empty();
    assert(sdp_fold(Seq::<Seq<char>>::empty()) == Ok::<SdpAcc, SdpParseError>(e));
    lemma_fold_more_concat(Ok(e), head_lines(d) + attr_contents(d.attributes), medias_lines(d.media));
    lemma_fold_more_concat(Ok(e), head_lines(d), attr_contents(d.attributes));
    lemma_fold_head(d);
    let h = head_acc(d);
    lemma_fold_session_attrs(h, d.attributes);
    let a2 = SdpAcc { attributes: h.attributes + d.attributes, ..h };
    lemma_fold_medias(a2, d.media);
    let a3 = if d.media.len() == 0 {
        a2
    } else {
        SdpAcc { media: a2.media + d.media.drop_last(), current: Some(d.media.last()), ..a2 }
    };
    assert(fold_more(Ok(e), l) == Ok::<SdpAcc, SdpParseError>(a3));
    lemma_fold_single(Ok(a3), empty_line);
    assert(trimmed(empty_line).len() == 0);
    assert(sdp_fold(l.push(empty_line)) == Ok::<SdpAcc, SdpParseError>(a3));
    assert(Seq::<(Seq<char>, Option<Seq<char>>)>::empty() + d.attributes =~= d.attributes);
    if d.media.len() == 0 {
        assert(d.media =~= Seq::<MediaView>::empty());
    } else {
        assert((Seq::<MediaView>::empty() + d.media.drop_last()).push(d.media.last()) =~= d.media);
    }
    assert(sdp_finish(a3) == Ok::<SdpView, SdpParseError>(d));
}

} // verus!
