//! Text and byte-string primitives.
//!
//! Strings are modelled by their characters (`Seq<char>`), buffers by their
//! bytes (`Seq<u8>`). Each executable function is proved against a short
//! mathematical definition of what it computes.

use vstd::prelude::*;

verus! {

/// `String::push` appends one character at the end of the string.
pub assume_specification[ String::push ](s: &mut String, c: char)
    ensures
        final(s)@ == old(s)@.push(c),
;

/// `str::to_lowercase` maps every character to its lower case as Unicode
/// defines it. The mapping is a function of the text alone and is left as a
/// name.
pub uninterp spec fn unicode_lowercase(s: Seq<char>) -> Seq<char>;

/// Calls `str::to_lowercase`. Besides naming the result, the contract says
/// that text made of ASCII characters is lowered letter by letter.
#[verifier::external_body]
fn to_lowercase(s: &str) -> (r: String)
    ensures
        r@ == unicode_lowercase(s@),
        vstd::utf8::is_ascii_chars(s@) ==> r@ == ascii_lowercase(s@),
{
    s.to_lowercase()
}

/// Calls `std::str::from_utf8`, which accepts exactly the well-formed UTF-8
/// encodings and hands back the text that they encode.
#[verifier::external_body]
pub(crate) fn utf8_text(bytes: &[u8]) -> (r: Option<&str>)
    ensures
        r is Some <==> vstd::utf8::valid_utf8(bytes@),
        r matches Some(s) ==> s@ == vstd::utf8::decode_utf8(bytes@),
{
    std::str::from_utf8(bytes).ok()
}

// ---------------------------------------------------------------------------
// Searching
// ---------------------------------------------------------------------------

/// What buffers and strings are made of.
pub(crate) trait Symbol: Sized + Copy {
    fn same(self, other: Self) -> (r: bool)
        ensures
            r == (self == other),
    ;
}

impl Symbol for u8 {
    fn same(self, other: Self) -> (r: bool) {
        self == other
    }
}

impl Symbol for char {
    fn same(self, other: Self) -> (r: bool) {
        self == other
    }
}

/// `pat` stands in `s` at position `i`.
pub open spec fn occurs_at<A>(s: Seq<A>, pat: Seq<A>, i: int) -> bool {
    0 <= i && i + pat.len() <= s.len() && s.subrange(i, i + pat.len()) == pat
}

/// `pat` stands somewhere in `s`.
pub open spec fn contains<A>(s: Seq<A>, pat: Seq<A>) -> bool {
    exists|i: int| occurs_at(s, pat, i)
}

/// The first position at or after `i` at which `pat` stands in `s`.
pub open spec fn find_from<A>(s: Seq<A>, pat: Seq<A>, i: int) -> Option<int>
    decreases s.len() + 1 - i,
{
    if i + pat.len() > s.len() {
        None
    } else if occurs_at(s, pat, i) {
        Some(i)
    } else {
        find_from(s, pat, i + 1)
    }
}

/// The first position at which `pat` stands in `s`.
pub open spec fn find<A>(s: Seq<A>, pat: Seq<A>) -> Option<int> {
    find_from(s, pat, 0)
}

/// `pat` stands in a text exactly where the text is something, `pat`, and
/// something more.
pub proof fn what_is_held_stands_inside<A>(before: Seq<A>, pat: Seq<A>, after: Seq<A>)
    ensures
        contains(before + pat + after, pat),
        forall|s: Seq<A>, i: int| #[trigger]
            occurs_at(s, pat, i) ==> 0 <= i && i + pat.len() <= s.len() && s == s.take(i) + pat
                + s.skip(i + pat.len()),
{
    let s = before + pat + after;
    assert(s.subrange(before.len() as int, (before.len() + pat.len()) as int) =~= pat);
    assert(occurs_at(s, pat, before.len() as int));
    assert forall|s: Seq<A>, i: int| #[trigger] occurs_at(s, pat, i) implies s == s.take(i) + pat
        + s.skip(i + pat.len()) by {
        assert(s =~= s.take(i) + s.subrange(i, i + pat.len()) + s.skip(i + pat.len()));
    }
}

/// `find_from` gives the least occurrence at or after `i`, if there is one.
pub proof fn lemma_find_from<A>(s: Seq<A>, pat: Seq<A>, i: int)
    requires
        0 <= i,
    ensures
        match find_from(s, pat, i) {
            Some(k) => i <= k && occurs_at(s, pat, k) && forall|j: int|
                i <= j < k ==> !occurs_at(s, pat, j),
            None => forall|j: int| i <= j ==> !occurs_at(s, pat, j),
        },
    decreases s.len() + 1 - i,
{
    if i + pat.len() > s.len() {
    } else if occurs_at(s, pat, i) {
    } else {
        lemma_find_from(s, pat, i + 1);
    }
}

/// `pat` stands somewhere in `s` exactly when `find` finds it.
pub proof fn lemma_contains_is_find<A>(s: Seq<A>, pat: Seq<A>)
    ensures
        contains(s, pat) <==> find(s, pat) is Some,
{
    lemma_find_from(s, pat, 0);
}

/// Whether `pat` stands in `s` at `i`.
pub(crate) fn matches_at<T: Symbol>(s: &[T], pat: &[T], i: usize) -> (r: bool)
    requires
        i + pat@.len() <= s@.len(),
    ensures
        r == occurs_at(s@, pat@, i as int),
{
    let n: usize = s.len();
    let mut j: usize = 0;
    while j < pat.len()
        invariant
            i + pat@.len() <= s@.len(),
            j <= pat@.len(),
            n == s@.len(),
            forall|k: int| 0 <= k < j ==> s@[i + k] == pat@[k],
        decreases pat@.len() - j,
    {
        if !s[i + j].same(pat[j]) {
            assert(s@.subrange(i as int, i + pat@.len())[j as int] == s@[i + j]);
            return false;
        }
        j += 1;
    }
    assert(s@.subrange(i as int, i + pat@.len()) =~= pat@);
    true
}

/// The first position at which `pat` stands in `s`.
pub(crate) fn find_slice<T: Symbol>(s: &[T], pat: &[T]) -> (r: Option<usize>)
    ensures
        match r {
            Some(i) => find(s@, pat@) == Some(i as int) && i + pat@.len() <= s@.len(),
            None => find(s@, pat@) is None,
        },
{
    if pat.len() > s.len() {
        return None;
    }
    let last: usize = s.len() - pat.len();
    let mut i: usize = 0;
    while i <= last
        invariant
            last == s@.len() - pat@.len(),
            i <= last + 1,
            find(s@, pat@) == find_from(s@, pat@, i as int),
        decreases last + 1 - i,
    {
        if matches_at(s, pat, i) {
            return Some(i);
        }
        if i == last {
            assert(find_from(s@, pat@, i + 1) is None);
            return None;
        }
        i += 1;
    }
    None
}

/// Whether `pat` stands anywhere in `s`.
pub(crate) fn contains_slice<T: Symbol>(s: &[T], pat: &[T]) -> (r: bool)
    ensures
        r == contains(s@, pat@),
{
    proof {
        lemma_contains_is_find(s@, pat@);
    }
    find_slice(s, pat).is_some()
}

/// Whether `s` begins with `pat`.
pub open spec fn starts_with<A>(s: Seq<A>, pat: Seq<A>) -> bool {
    occurs_at(s, pat, 0)
}

pub(crate) fn starts_with_slice<T: Symbol>(s: &[T], pat: &[T]) -> (r: bool)
    ensures
        r == starts_with(s@, pat@),
{
    pat.len() <= s.len() && matches_at(s, pat, 0)
}

/// Whether two slices hold the same items.
pub(crate) fn same_slice<T: Symbol>(a: &[T], b: &[T]) -> (r: bool)
    ensures
        r == (a@ == b@),
{
    if a.len() != b.len() {
        return false;
    }
    proof {
        assert(a@.subrange(0, b@.len() as int) =~= a@);
    }
    matches_at(a, b, 0)
}

// ---------------------------------------------------------------------------
// Characters of a string
// ---------------------------------------------------------------------------

/// The characters of `s`.
pub(crate) fn chars_of(s: &str) -> (v: Vec<char>)
    ensures
        v@ == s@,
{
    let mut v: Vec<char> = Vec::new();
    for c in it: s.chars()
        invariant
            v@ == it.seq().take(it.index() as int),
            it.seq() == s@,
    {
        v.push(c);
    }
    v
}

/// The string made of `cs`.
pub(crate) fn string_of(cs: &[char]) -> (s: String)
    ensures
        s@ == cs@,
{
    let mut s = String::new();
    let mut i: usize = 0;
    while i < cs.len()
        invariant
            i <= cs@.len(),
            s@ == cs@.take(i as int),
        decreases cs@.len() - i,
    {
        s.push(cs[i]);
        assert(cs@.take(i + 1) =~= cs@.take(i as int).push(cs@[i as int]));
        i += 1;
    }
    assert(cs@.take(i as int) =~= cs@);
    s
}

/// Whether `pat` stands anywhere in `s`.
pub fn contains_text(s: &str, pat: &str) -> (r: bool)
    ensures
        r == contains(s@, pat@),
{
    let sc = chars_of(s);
    let pc = chars_of(pat);
    contains_slice(sc.as_slice(), pc.as_slice())
}

/// Whether the two strings are the same text.
pub fn same_text(a: &str, b: &str) -> (r: bool)
    ensures
        r == (a@ == b@),
{
    let ac = chars_of(a);
    let bc = chars_of(b);
    same_slice(ac.as_slice(), bc.as_slice())
}

// ---------------------------------------------------------------------------
// Letter case
// ---------------------------------------------------------------------------

/// The lower-case form of an ASCII capital; every other character itself.
pub open spec fn ascii_lower_char(c: char) -> char {
    if 'A' <= c <= 'Z' {
        (c as u8 + 32) as char
    } else {
        c
    }
}

/// The text with each ASCII capital replaced by its small letter.
pub open spec fn ascii_lowercase(s: Seq<char>) -> Seq<char> {
    s.map_values(|c: char| ascii_lower_char(c))
}

/// Lowering a text turns each of the letters from `A` to `Z` into the letter 32
/// places on, and leaves everything else as it is.
pub proof fn lowering_is_letter_by_letter(s: Seq<char>)
    ensures
        ascii_lowercase(s).len() == s.len(),
        forall|i: int|
            0 <= i < s.len() ==> #[trigger] ascii_lowercase(s)[i] as int == (if 65 <= s[i] as int
                <= 90 {
                s[i] as int + 32
            } else {
                s[i] as int
            }),
{
}

/// The lower-case form of a text: letter by letter where it is ASCII, as
/// Unicode has it elsewhere.
pub open spec fn lowercase(s: Seq<char>) -> Seq<char> {
    if vstd::utf8::is_ascii_chars(s) {
        ascii_lowercase(s)
    } else {
        unicode_lowercase(s)
    }
}

/// The text in lower case.
pub fn lowered(s: &str) -> (r: String)
    ensures
        r@ == lowercase(s@),
{
    to_lowercase(s)
}

// ---------------------------------------------------------------------------
// White space
// ---------------------------------------------------------------------------

/// The characters with the Unicode property `White_Space`.
pub open spec fn is_space(c: char) -> bool {
    ||| '\u{9}' <= c <= '\u{d}'
    ||| c == ' '
    ||| c == '\u{85}'
    ||| c == '\u{a0}'
    ||| c == '\u{1680}'
    ||| '\u{2000}' <= c <= '\u{200a}'
    ||| c == '\u{2028}'
    ||| c == '\u{2029}'
    ||| c == '\u{202f}'
    ||| c == '\u{205f}'
    ||| c == '\u{3000}'
}

pub(crate) fn space_char(c: char) -> (r: bool)
    ensures
        r == is_space(c),
{
    ('\u{9}' <= c && c <= '\u{d}') || c == ' ' || c == '\u{85}' || c == '\u{a0}' || c == '\u{1680}'
        || ('\u{2000}' <= c && c <= '\u{200a}') || c == '\u{2028}' || c == '\u{2029}'
        || c == '\u{202f}' || c == '\u{205f}' || c == '\u{3000}'
}

/// The text without its leading white space.
pub open spec fn trim_start(s: Seq<char>) -> Seq<char>
    decreases s.len(),
{
    if s.len() > 0 && is_space(s[0]) {
        trim_start(s.skip(1))
    } else {
        s
    }
}

/// The text without its trailing white space.
pub open spec fn trim_end(s: Seq<char>) -> Seq<char>
    decreases s.len(),
{
    if s.len() > 0 && is_space(s.last()) {
        trim_end(s.drop_last())
    } else {
        s
    }
}

/// The text without white space at either end.
pub open spec fn trim(s: Seq<char>) -> Seq<char> {
    trim_end(trim_start(s))
}

/// Nothing but white space.
pub open spec fn is_blank_text(s: Seq<char>) -> bool {
    forall|i: int| 0 <= i < s.len() ==> is_space(#[trigger] s[i])
}

proof fn lemma_trim_start_blank(blank: Seq<char>, s: Seq<char>)
    requires
        is_blank_text(blank),
        s.len() == 0 || !is_space(s[0]),
    ensures
        trim_start(blank + s) == s,
    decreases blank.len(),
{
    if blank.len() == 0 {
        assert(blank + s =~= s);
    } else {
        assert((blank + s)[0] == blank[0]);
        assert((blank + s).skip(1) =~= blank.skip(1) + s);
        assert forall|i: int| 0 <= i < blank.skip(1).len() implies is_space(
            #[trigger] blank.skip(1)[i],
        ) by {
            assert(blank.skip(1)[i] == blank[i + 1]);
        }
        lemma_trim_start_blank(blank.skip(1), s);
    }
}

proof fn lemma_trim_end_blank(s: Seq<char>, blank: Seq<char>)
    requires
        is_blank_text(blank),
        s.len() == 0 || !is_space(s.last()),
    ensures
        trim_end(s + blank) == s,
    decreases blank.len(),
{
    if blank.len() == 0 {
        assert(s + blank =~= s);
    } else {
        let less = blank.drop_last();
        assert((s + blank).last() == blank[blank.len() - 1]);
        assert((s + blank).drop_last() =~= s + less);
        assert forall|i: int| 0 <= i < less.len() implies is_space(#[trigger] less[i]) by {
            assert(less[i] == blank[i]);
        }
        lemma_trim_end_blank(s, less);
    }
}

/// Trimming takes the white space at both ends off, all of it and nothing else.
pub proof fn trimming_takes_white_space_off(before: Seq<char>, s: Seq<char>, after: Seq<char>)
    requires
        is_blank_text(before),
        is_blank_text(after),
        s.len() > 0 ==> !is_space(s[0]) && !is_space(s.last()),
    ensures
        trim(before + s + after) == s,
{
    if s.len() == 0 {
        let blank = before + s + after;
        assert forall|i: int| 0 <= i < blank.len() implies is_space(#[trigger] blank[i]) by {
            if i < before.len() {
                assert(blank[i] == before[i]);
            } else {
                assert(blank[i] == after[i - before.len()]);
            }
        }
        lemma_trim_start_blank(blank, Seq::empty());
        assert(blank + Seq::<char>::empty() =~= blank);
        assert(trim_end(Seq::<char>::empty()) =~= s);
    } else {
        assert(before + s + after =~= before + (s + after));
        assert((s + after)[0] == s[0]);
        lemma_trim_start_blank(before, s + after);
        lemma_trim_end_blank(s, after);
    }
}

/// Of the ASCII characters, white space are the blank and those from the tab to
/// the carriage return.
pub proof fn ascii_white_space(c: char)
    ensures
        c as int <= 127 ==> is_space(c) == (c as int == 32 || 9 <= c as int <= 13),
{
}

pub(crate) fn trim_chars(cs: &[char]) -> (r: Vec<char>)
    ensures
        r@ == trim(cs@),
{
    let mut lo: usize = 0;
    proof {
        assert(cs@.skip(0) =~= cs@);
    }
    while lo < cs.len() && space_char(cs[lo])
        invariant
            lo <= cs@.len(),
            trim_start(cs@) == trim_start(cs@.skip(lo as int)),
        decreases cs@.len() - lo,
    {
        assert(cs@.skip(lo as int).skip(1) =~= cs@.skip(lo + 1));
        lo += 1;
    }
    let mut hi: usize = cs.len();
    let ghost body = trim_start(cs@);
    proof {
        assert(body == cs@.skip(lo as int));
        assert(body =~= cs@.subrange(lo as int, hi as int));
    }
    while hi > lo && space_char(cs[hi - 1])
        invariant
            lo <= hi <= cs@.len(),
            trim_end(body) == trim_end(cs@.subrange(lo as int, hi as int)),
        decreases hi,
    {
        assert(cs@.subrange(lo as int, hi as int).drop_last() =~= cs@.subrange(
            lo as int,
            hi - 1,
        ));
        hi -= 1;
    }
    let mut r: Vec<char> = Vec::new();
    let mut i: usize = lo;
    while i < hi
        invariant
            lo <= i <= hi <= cs@.len(),
            r@ =~= cs@.subrange(lo as int, i as int),
        decreases hi - i,
    {
        r.push(cs[i]);
        i += 1;
    }
    r
}

/// How many characters stand before the first white space.
pub open spec fn word_len(s: Seq<char>) -> int
    decreases s.len(),
{
    if s.len() == 0 || is_space(s[0]) {
        0
    } else {
        1 + word_len(s.skip(1))
    }
}

pub proof fn lemma_trim_start_len(s: Seq<char>)
    ensures
        trim_start(s).len() <= s.len(),
        trim_start(s).len() > 0 ==> !is_space(trim_start(s)[0]),
    decreases s.len(),
{
    if s.len() > 0 && is_space(s[0]) {
        lemma_trim_start_len(s.skip(1));
    }
}

pub proof fn lemma_word_len(s: Seq<char>)
    ensures
        0 <= word_len(s) <= s.len(),
        s.len() > 0 && !is_space(s[0]) ==> word_len(s) > 0,
        word_len(s) < s.len() ==> is_space(s[word_len(s)]),
        forall|i: int| 0 <= i < word_len(s) ==> !is_space(#[trigger] s[i]),
    decreases s.len(),
{
    if s.len() == 0 || is_space(s[0]) {
    } else {
        lemma_word_len(s.skip(1));
        assert forall|i: int| 0 <= i < word_len(s) implies !is_space(#[trigger] s[i]) by {
            if i > 0 {
                assert(s.skip(1)[i - 1] == s[i]);
            }
        }
        if word_len(s) < s.len() {
            assert(s.skip(1)[word_len(s) - 1] == s[word_len(s)]);
        }
    }
}

/// The maximal runs of characters that are not white space, in order.
pub open spec fn words(s: Seq<char>) -> Seq<Seq<char>>
    decreases s.len(),
{
    let t = trim_start(s);
    if t.len() == 0 {
        Seq::empty()
    } else {
        proof {
            lemma_trim_start_len(s);
            lemma_word_len(t);
        }
        seq![t.take(word_len(t))] + words(t.skip(word_len(t)))
    }
}

/// A text is split at its white space: a word that white space or the end
/// follows is the first word, white space in front is passed over, and where
/// there is nothing else there are no words.
pub proof fn words_are_set_apart_by_white_space(blank: Seq<char>, w: Seq<char>, rest: Seq<char>)
    requires
        is_blank_text(blank),
        w.len() > 0,
        forall|i: int| 0 <= i < w.len() ==> !is_space(#[trigger] w[i]),
        rest.len() == 0 || is_space(rest[0]),
    ensures
        words(blank + w + rest) == seq![w] + words(rest),
        words(blank) == Seq::<Seq<char>>::empty(),
{
    let t = w + rest;
    assert(blank + w + rest =~= blank + t);
    assert(t[0] == w[0]);
    lemma_trim_start_blank(blank, t);
    lemma_word_len(t);
    if word_len(t) < w.len() {
        assert(t[word_len(t)] == w[word_len(t)]);
    }
    if word_len(t) > w.len() {
        assert(t[w.len() as int] == rest[0]);
    }
    assert(t.take(w.len() as int) =~= w);
    assert(t.skip(w.len() as int) =~= rest);
    lemma_trim_start_blank(blank, Seq::empty());
    assert(blank + Seq::<char>::empty() =~= blank);
}

/// The texts of a list of strings.
pub open spec fn texts(v: Seq<String>) -> Seq<Seq<char>> {
    v.map_values(|s: String| s@)
}

/// Splits text at its white space.
pub(crate) fn split_words(cs: &[char]) -> (r: Vec<String>)
    ensures
        texts(r@) == words(cs@),
{
    let mut out: Vec<String> = Vec::new();
    let mut i: usize = 0;
    proof {
        assert(cs@.skip(0) =~= cs@);
        assert(texts(out@) + words(cs@) =~= words(cs@));
    }
    loop
        invariant
            i <= cs@.len(),
            texts(out@) + words(cs@.skip(i as int)) == words(cs@),
        ensures
            texts(out@) == words(cs@),
        decreases cs@.len() - i,
    {
        let ghost rest = cs@.skip(i as int);
        let mut lo: usize = i;
        while lo < cs.len() && space_char(cs[lo])
            invariant
                i <= lo <= cs@.len(),
                trim_start(rest) == trim_start(cs@.skip(lo as int)),
            decreases cs@.len() - lo,
        {
            assert(cs@.skip(lo as int).skip(1) =~= cs@.skip(lo + 1));
            lo += 1;
        }
        let ghost t = cs@.skip(lo as int);
        assert(trim_start(rest) == t);
        if lo == cs.len() {
            assert(words(rest) =~= Seq::<Seq<char>>::empty());
            assert(texts(out@) + words(rest) =~= texts(out@));
            break;
        }
        let mut hi: usize = lo;
        proof {
            assert(cs@.skip(hi as int) == t);
        }
        while hi < cs.len() && !space_char(cs[hi])
            invariant
                lo <= hi <= cs@.len(),
                word_len(t) == (hi - lo) + word_len(cs@.skip(hi as int)),
            decreases cs@.len() - hi,
        {
            assert(cs@.skip(hi as int).skip(1) =~= cs@.skip(hi + 1));
            hi += 1;
        }
        let word = string_of(vstd::slice::slice_subrange(cs, lo, hi));
        proof {
            lemma_word_len(t);
            assert(word_len(t) == hi - lo);
            assert(word@ =~= t.take(word_len(t)));
            assert(t.skip(word_len(t)) =~= cs@.skip(hi as int));
        }
        let ghost before = out@;
        out.push(word);
        proof {
            assert(texts(out@) =~= texts(before) + seq![word@]);
            assert(texts(before) + (seq![word@] + words(cs@.skip(hi as int))) =~= (texts(before)
                + seq![word@]) + words(cs@.skip(hi as int)));
        }
        i = hi;
    }
    out
}

// ---------------------------------------------------------------------------
// Lines
// ---------------------------------------------------------------------------

/// How many characters stand before the first `c`; all of them if there is
/// none.
pub open spec fn until(s: Seq<char>, c: char) -> int
    decreases s.len(),
{
    if s.len() == 0 || s[0] == c {
        0
    } else {
        1 + until(s.skip(1), c)
    }
}

pub proof fn lemma_until(s: Seq<char>, c: char)
    ensures
        0 <= until(s, c) <= s.len(),
        until(s, c) < s.len() ==> s[until(s, c)] == c,
        forall|i: int| 0 <= i < until(s, c) ==> #[trigger] s[i] != c,
    decreases s.len(),
{
    if s.len() == 0 || s[0] == c {
    } else {
        lemma_until(s.skip(1), c);
        assert forall|i: int| 0 <= i < until(s, c) implies #[trigger] s[i] != c by {
            if i > 0 {
                assert(s.skip(1)[i - 1] == s[i]);
            }
        }
        if until(s, c) < s.len() {
            assert(s.skip(1)[until(s, c) - 1] == s[until(s, c)]);
        }
    }
}

/// The position of the first `c` at or after `from`, or the length.
pub(crate) fn position_of(cs: &[char], c: char, from: usize) -> (r: usize)
    requires
        from <= cs@.len(),
    ensures
        from <= r <= cs@.len(),
        r == from + until(cs@.skip(from as int), c),
{
    let mut i: usize = from;
    while i < cs.len() && cs[i] != c
        invariant
            from <= i <= cs@.len(),
            from + until(cs@.skip(from as int), c) == i + until(cs@.skip(i as int), c),
        decreases cs@.len() - i,
    {
        assert(cs@.skip(i as int).skip(1) =~= cs@.skip(i + 1));
        i += 1;
    }
    i
}

/// A line without the carriage return that ends it.
pub open spec fn drop_cr(line: Seq<char>) -> Seq<char> {
    if line.len() > 0 && line.last() == '\r' {
        line.drop_last()
    } else {
        line
    }
}

/// The lines of a text. A line ends at a line feed or at a carriage return
/// followed by one; the last line may lack its end.
pub open spec fn lines(s: Seq<char>) -> Seq<Seq<char>>
    decreases s.len(),
{
    if s.len() == 0 {
        Seq::empty()
    } else {
        let n = until(s, '\n');
        proof {
            lemma_until(s, '\n');
        }
        if n == s.len() {
            seq![s]
        } else {
            seq![drop_cr(s.take(n))] + lines(s.skip(n + 1))
        }
    }
}

/// A text is split at its line feeds: what stands before the first, without a
/// carriage return at its end, is the first line; a text without a line feed is
/// one line, and an empty text has none.
pub proof fn lines_end_at_line_feeds(line: Seq<char>, rest: Seq<char>)
    requires
        forall|i: int| 0 <= i < line.len() ==> #[trigger] line[i] != '\n',
    ensures
        line.len() > 0 && line.last() == '\r' ==> lines(line + seq!['\n'] + rest) == seq![
            line.drop_last(),
        ] + lines(rest),
        !(line.len() > 0 && line.last() == '\r') ==> lines(line + seq!['\n'] + rest) == seq![line]
            + lines(rest),
        line.len() > 0 ==> lines(line) == seq![line],
        lines(Seq::empty()) == Seq::<Seq<char>>::empty(),
{
    let s = line + seq!['\n'] + rest;
    lemma_until(s, '\n');
    let n = until(s, '\n');
    assert(s[line.len() as int] == '\n');
    if n < line.len() {
        assert(s[n] == line[n]);
    }
    assert(s.take(n) =~= line);
    assert(s.skip(n + 1) =~= rest);
    lemma_until(line, '\n');
}

/// The contents of a list of character vectors.
pub open spec fn contents(v: Seq<Vec<char>>) -> Seq<Seq<char>> {
    v.map_values(|l: Vec<char>| l@)
}

/// Splits text into its lines.
pub(crate) fn split_lines(cs: &[char]) -> (r: Vec<Vec<char>>)
    ensures
        contents(r@) == lines(cs@),
{
    let mut out: Vec<Vec<char>> = Vec::new();
    let mut i: usize = 0;
    proof {
        assert(cs@.skip(0) =~= cs@);
        assert(contents(out@) + lines(cs@) =~= lines(cs@));
    }
    while i < cs.len()
        invariant
            i <= cs@.len(),
            contents(out@) + lines(cs@.skip(i as int)) == lines(cs@),
        decreases cs@.len() - i,
    {
        let ghost rest = cs@.skip(i as int);
        let ghost before = out@;
        let hi = position_of(cs, '\n', i);
        proof {
            lemma_until(rest, '\n');
        }
        if hi == cs.len() {
            let line = vstd::slice::slice_to_vec(vstd::slice::slice_subrange(cs, i, hi));
            assert(line@ =~= rest);
            out.push(line);
            proof {
                assert(contents(out@) =~= contents(before) + seq![rest]);
                assert(lines(cs@.skip(hi as int)) =~= Seq::<Seq<char>>::empty());
                assert(contents(out@) + lines(cs@.skip(hi as int)) =~= contents(before) + lines(
                    rest,
                ));
            }
            i = hi;
        } else {
            let end: usize = if hi > i && cs[hi - 1] == '\r' {
                hi - 1
            } else {
                hi
            };
            let line = vstd::slice::slice_to_vec(vstd::slice::slice_subrange(cs, i, end));
            proof {
                assert(rest.take(hi - i) =~= cs@.subrange(i as int, hi as int));
                assert(line@ =~= drop_cr(rest.take(hi - i)));
                assert(rest.skip(hi - i + 1) =~= cs@.skip(hi + 1));
            }
            out.push(line);
            proof {
                assert(contents(out@) =~= contents(before) + seq![line@]);
                assert(contents(before) + (seq![line@] + lines(cs@.skip(hi + 1))) =~= (contents(
                    before,
                ) + seq![line@]) + lines(cs@.skip(hi + 1)));
            }
            i = hi + 1;
        }
    }
    proof {
        assert(lines(cs@.skip(i as int)) =~= Seq::<Seq<char>>::empty());
        assert(contents(out@) + lines(cs@.skip(i as int)) =~= contents(out@));
    }
    out
}

/// Beyond ASCII, white space is the next line, the no-break space, the Ogham space mark,
/// the spaces of general punctuation, its line and paragraph separators, the mathematical
/// space and the ideographic space.
pub proof fn white_space_beyond_ascii(c: char)
    requires
        c as int > 127,
    ensures
        is_space(c) == (c as int == 0x85 || c as int == 0xa0 || c as int == 0x1680 || 0x2000
            <= c as int <= 0x200a || c as int == 0x2028 || c as int == 0x2029 || c as int == 0x202f
            || c as int == 0x205f || c as int == 0x3000),
{
}

} // verus!
