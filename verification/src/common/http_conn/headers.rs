//! Header fields, kept in `http::HeaderMap`.
//!
//! The map is modelled by the sequence of fields that walking it yields: each
//! field is a name in lower case and the bytes of its value.

use crate::text;
use http::{HeaderMap, HeaderName, HeaderValue};
use vstd::prelude::*;

verus! {

/// `http::HeaderMap`, seen only through the functions below.
#[verifier::external_type_specification]
#[verifier::external_body]
#[verifier::reject_recursive_types(T)]
pub struct ExHeaderMap<T>(HeaderMap<T>);

/// `http::HeaderName`, seen only through the functions below.
#[verifier::external_type_specification]
#[verifier::external_body]
pub struct ExHeaderName(HeaderName);

/// `http::HeaderValue`, seen only through the functions below.
#[verifier::external_type_specification]
#[verifier::external_body]
pub struct ExHeaderValue(HeaderValue);

/// The characters that a header name holds.
pub uninterp spec fn header_name_text(name: HeaderName) -> Seq<char>;

/// The bytes that a header value holds.
pub uninterp spec fn header_value_bytes(value: HeaderValue) -> Seq<u8>;

/// The fields that a header map holds, in the order in which it is walked.
pub uninterp spec fn header_fields(map: HeaderMap<HeaderValue>) -> Seq<(Seq<char>, Seq<u8>)>;

/// One header field as plain values.
#[derive(Debug)]
pub struct RawHeader {
    pub name: String,
    pub value: Vec<u8>,
}

impl View for RawHeader {
    type V = (Seq<char>, Seq<u8>);

    open spec fn view(&self) -> (Seq<char>, Seq<u8>) {
        (self.name@, self.value@)
    }
}

/// The fields of a list of headers.
pub open spec fn raw_fields(v: Seq<RawHeader>) -> Seq<(Seq<char>, Seq<u8>)> {
    v.map_values(|h: RawHeader| h@)
}

// ---------------------------------------------------------------------------
// Names and values
// ---------------------------------------------------------------------------

/// The characters of an HTTP token.
pub open spec fn is_token_char(c: char) -> bool {
    ||| 'a' <= c <= 'z'
    ||| 'A' <= c <= 'Z'
    ||| '0' <= c <= '9'
    ||| c == '!' || c == '#' || c == '$' || c == '%' || c == '&' || c == '\''
    ||| c == '*' || c == '+' || c == '-' || c == '.' || c == '^' || c == '_'
    ||| c == '`' || c == '|' || c == '~'
}

/// A non-empty run of token characters.
pub open spec fn is_token(s: Seq<char>) -> bool {
    s.len() > 0 && forall|i: int| 0 <= i < s.len() ==> is_token_char(#[trigger] s[i])
}

/// A token without capital letters: the form in which names are stored.
pub open spec fn is_field_name(s: Seq<char>) -> bool {
    s.len() > 0 && forall|i: int|
        0 <= i < s.len() ==> is_token_char(#[trigger] s[i]) && !('A' <= s[i] <= 'Z')
}

/// The longest header name that can be stored.
pub const MAX_NAME_LEN: usize = 65535;

/// The names that can be stored.
pub open spec fn is_storable_name(s: Seq<char>) -> bool {
    is_token(s) && s.len() <= MAX_NAME_LEN
}

/// The bytes that a header value may hold.
pub open spec fn is_value_byte(b: u8) -> bool {
    (b >= 32 && b != 127) || b == 9
}

pub open spec fn is_storable_value(v: Seq<u8>) -> bool {
    forall|i: int| 0 <= i < v.len() ==> is_value_byte(#[trigger] v[i])
}

/// The bytes that can be shown as text.
pub open spec fn is_visible_byte(b: u8) -> bool {
    (32 <= b < 127) || b == 9
}

pub open spec fn is_visible(v: Seq<u8>) -> bool {
    forall|i: int| 0 <= i < v.len() ==> is_visible_byte(#[trigger] v[i])
}

/// Bytes read as ASCII characters.
pub open spec fn ascii_text(v: Seq<u8>) -> Seq<char> {
    Seq::new(v.len(), |i: int| v[i] as char)
}

/// `HeaderName::from_bytes` accepts a token that is not too long and stores it
/// in lower case.
#[verifier::external_body]
pub(crate) fn header_name(name: &str) -> (r: Option<HeaderName>)
    ensures
        (r is Some) == is_storable_name(name@),
        r matches Some(n) ==> header_name_text(n) == text::ascii_lowercase(name@),
{
    HeaderName::from_bytes(name.as_bytes()).ok()
}

/// `HeaderValue::from_str` accepts text whose bytes a value may hold, and keeps
/// these bytes.
#[verifier::external_body]
pub(crate) fn header_value(value: &str) -> (r: Option<HeaderValue>)
    ensures
        (r is Some) == is_storable_value(vstd::utf8::encode_utf8(value@)),
        r matches Some(v) ==> header_value_bytes(v) == vstd::utf8::encode_utf8(value@),
{
    HeaderValue::from_str(value).ok()
}

/// `HeaderValue::to_str` yields the bytes as text exactly when all of them are
/// visible ASCII or tabs.
#[verifier::external_body]
pub(crate) fn value_text(value: &HeaderValue) -> (r: Option<&str>)
    ensures
        (r is Some) == is_visible(header_value_bytes(*value)),
        r matches Some(s) ==> s@ == ascii_text(header_value_bytes(*value)),
{
    value.to_str().ok()
}

// ---------------------------------------------------------------------------
// Fields
// ---------------------------------------------------------------------------

/// The value of the first field of that name.
pub open spec fn lookup(fields: Seq<(Seq<char>, Seq<u8>)>, name: Seq<char>) -> Option<Seq<u8>>
    decreases fields.len(),
{
    if fields.len() == 0 {
        None
    } else if fields[0].0 == name {
        Some(fields[0].1)
    } else {
        lookup(fields.skip(1), name)
    }
}

/// The fields of any other name.
pub open spec fn without(
    fields: Seq<(Seq<char>, Seq<u8>)>,
    name: Seq<char>,
) -> Seq<(Seq<char>, Seq<u8>)>
    decreases fields.len(),
{
    if fields.len() == 0 {
        Seq::empty()
    } else if fields[0].0 == name {
        without(fields.skip(1), name)
    } else {
        seq![fields[0]] + without(fields.skip(1), name)
    }
}

/// The fields with `value` as the only value of `name`: in the place of the
/// first field of that name, or at the end if there was none.
pub open spec fn put(
    fields: Seq<(Seq<char>, Seq<u8>)>,
    name: Seq<char>,
    value: Seq<u8>,
) -> Seq<(Seq<char>, Seq<u8>)>
    decreases fields.len(),
{
    if fields.len() == 0 {
        seq![(name, value)]
    } else if fields[0].0 == name {
        seq![(name, value)] + without(fields.skip(1), name)
    } else {
        seq![fields[0]] + put(fields.skip(1), name, value)
    }
}

/// `HeaderMap::new` makes a map without fields.
#[verifier::external_body]
pub(crate) fn empty_headers() -> (map: HeaderMap<HeaderValue>)
    ensures
        header_fields(map) == Seq::<(Seq<char>, Seq<u8>)>::empty(),
{
    HeaderMap::new()
}

/// `HeaderMap::insert` makes the value the only one of its name. New names go
/// to the end of the order in which the map is walked. It panics only on maps
/// of some thousands of fields.
#[verifier::external_body]
pub(crate) fn insert_header(map: &mut HeaderMap<HeaderValue>, name: HeaderName, value: HeaderValue)
    requires
        header_fields(*old(map)).len() < 1024,
    ensures
        header_fields(*final(map)) == put(
            header_fields(*old(map)),
            header_name_text(name),
            header_value_bytes(value),
        ),
{
    map.insert(name, value);
}

/// `HeaderMap::get` finds the first value of a name.
#[verifier::external_body]
pub(crate) fn get_header<'a>(map: &'a HeaderMap<HeaderValue>, name: &str) -> (r: Option<
    &'a HeaderValue,
>)
    requires
        is_field_name(name@),
    ensures
        match r {
            Some(v) => lookup(header_fields(*map), name@) == Some(header_value_bytes(*v)),
            None => lookup(header_fields(*map), name@) is None,
        },
{
    map.get(name)
}

/// `HeaderMap::contains_key` tells whether a name has a value.
#[verifier::external_body]
pub(crate) fn has_header(map: &HeaderMap<HeaderValue>, name: &str) -> (r: bool)
    requires
        is_field_name(name@),
    ensures
        r == (lookup(header_fields(*map), name@) is Some),
{
    map.contains_key(name)
}

/// `HeaderMap::iter` walks the fields; each is handed out as plain values.
#[verifier::external_body]
pub(crate) fn list_headers(map: &HeaderMap<HeaderValue>) -> (r: Vec<RawHeader>)
    ensures
        raw_fields(r@) == header_fields(*map),
{
    map.iter()
        .map(|(n, v)| RawHeader { name: n.as_str().to_string(), value: v.as_bytes().to_vec() })
        .collect()
}

/// What a value says when it is read for key words: its text in lower case, or
/// nothing where it has no text.
pub open spec fn keyword_text(value: Seq<u8>) -> Seq<char> {
    if is_visible(value) {
        text::ascii_lowercase(ascii_text(value))
    } else {
        Seq::empty()
    }
}

/// The first value of `name` holds `word`, whatever the letter case.
pub open spec fn mentions(
    fields: Seq<(Seq<char>, Seq<u8>)>,
    name: Seq<char>,
    word: Seq<char>,
) -> bool {
    lookup(fields, name) matches Some(value) && text::contains(keyword_text(value), word)
}

/// The text of a value, in lower case.
pub(crate) fn lowered_value(value: &HeaderValue) -> (r: String)
    ensures
        r@ == keyword_text(header_value_bytes(*value)),
{
    match value_text(value) {
        Some(s) => {
            assert(vstd::utf8::is_ascii_chars(s@));
            text::lowered(s)
        },
        None => String::new(),
    }
}

/// Whether the first value of `name` holds `word`, whatever the letter case.
pub(crate) fn header_mentions(map: &HeaderMap<HeaderValue>, name: &str, word: &str) -> (r: bool)
    requires
        is_field_name(name@),
    ensures
        r == mentions(header_fields(*map), name@, word@),
{
    match get_header(map, name) {
        Some(value) => {
            let lowered = lowered_value(value);
            text::contains_text(lowered.as_str(), word)
        },
        None => false,
    }
}

/// The header names that decide how a connection goes on are field names.
pub proof fn lemma_known_names()
    ensures
        is_field_name("upgrade"@),
        is_field_name("connection"@),
        is_field_name("sec-websocket-key"@),
        is_field_name("sec-websocket-accept"@),
        is_field_name("transfer-encoding"@),
        is_field_name("content-length"@),
{
    reveal_strlit("upgrade");
    reveal_strlit("connection");
    reveal_strlit("sec-websocket-key");
    reveal_strlit("sec-websocket-accept");
    reveal_strlit("transfer-encoding");
    reveal_strlit("content-length");
}

// ---------------------------------------------------------------------------
// Laws of fields
// ---------------------------------------------------------------------------

/// What was put under a name is what is found there.
pub proof fn lemma_lookup_put_same(
    fields: Seq<(Seq<char>, Seq<u8>)>,
    name: Seq<char>,
    value: Seq<u8>,
)
    ensures
        lookup(put(fields, name, value), name) == Some(value),
    decreases fields.len(),
{
    if fields.len() > 0 && fields[0].0 != name {
        lemma_lookup_put_same(fields.skip(1), name, value);
        assert(put(fields, name, value).skip(1) =~= put(fields.skip(1), name, value));
    }
}

proof fn lemma_lookup_without(
    fields: Seq<(Seq<char>, Seq<u8>)>,
    name: Seq<char>,
    other: Seq<char>,
)
    requires
        other != name,
    ensures
        lookup(without(fields, name), other) == lookup(fields, other),
    decreases fields.len(),
{
    if fields.len() > 0 {
        lemma_lookup_without(fields.skip(1), name, other);
        if fields[0].0 != name {
            assert(without(fields, name).skip(1) =~= without(fields.skip(1), name));
        }
    }
}

/// Putting a field leaves every other name as it was.
pub proof fn lemma_lookup_put_other(
    fields: Seq<(Seq<char>, Seq<u8>)>,
    name: Seq<char>,
    value: Seq<u8>,
    other: Seq<char>,
)
    requires
        other != name,
    ensures
        lookup(put(fields, name, value), other) == lookup(fields, other),
    decreases fields.len(),
{
    if fields.len() == 0 {
        let rest = put(fields, name, value).skip(1);
        assert(rest.len() == 0);
        assert(lookup(rest, other) is None);
    } else if fields[0].0 == name {
        lemma_lookup_without(fields.skip(1), name, other);
        assert(put(fields, name, value).skip(1) =~= without(fields.skip(1), name));
    } else {
        lemma_lookup_put_other(fields.skip(1), name, value, other);
        assert(put(fields, name, value).skip(1) =~= put(fields.skip(1), name, value));
    }
}

proof fn lemma_without_len(fields: Seq<(Seq<char>, Seq<u8>)>, name: Seq<char>)
    ensures
        without(fields, name).len() <= fields.len(),
    decreases fields.len(),
{
    if fields.len() > 0 {
        lemma_without_len(fields.skip(1), name);
    }
}

pub proof fn lemma_put_len(fields: Seq<(Seq<char>, Seq<u8>)>, name: Seq<char>, value: Seq<u8>)
    ensures
        put(fields, name, value).len() <= fields.len() + 1,
    decreases fields.len(),
{
    if fields.len() == 0 {
    } else if fields[0].0 == name {
        lemma_without_len(fields.skip(1), name);
    } else {
        lemma_put_len(fields.skip(1), name, value);
    }
}

/// A field of a new name goes to the end.
pub proof fn lemma_put_new(fields: Seq<(Seq<char>, Seq<u8>)>, name: Seq<char>, value: Seq<u8>)
    requires
        forall|i: int| 0 <= i < fields.len() ==> (#[trigger] fields[i]).0 != name,
    ensures
        put(fields, name, value) == fields.push((name, value)),
    decreases fields.len(),
{
    if fields.len() > 0 {
        assert forall|i: int| 0 <= i < fields.skip(1).len() implies (#[trigger] fields.skip(
            1,
        )[i]).0 != name by {
            assert(fields.skip(1)[i] == fields[i + 1]);
        }
        lemma_put_new(fields.skip(1), name, value);
        assert(put(fields, name, value) =~= fields.push((name, value)));
    } else {
        assert(put(fields, name, value) =~= fields.push((name, value)));
    }
}

/// Of the ASCII characters, those that a token may hold are the visible ones but
/// for the delimiters.
pub proof fn tokens_hold_no_delimiters(c: char)
    ensures
        c as int <= 127 ==> is_token_char(c) == (33 <= c as int <= 126 && c != '(' && c != ')' && c
            != ',' && c != '/' && c != ':' && c != ';' && c != '<' && c != '=' && c != '>' && c
            != '?' && c != '@' && c != '[' && c != '\\' && c != ']' && c != '{' && c != '}' && c
            != '"'),
        c as int > 127 ==> !is_token_char(c),
{
}

/// The field is the first of its name.
pub open spec fn is_first(fields: Seq<(Seq<char>, Seq<u8>)>, name: Seq<char>, i: int) -> bool {
    &&& 0 <= i < fields.len()
    &&& fields[i].0 == name
    &&& forall|j: int| 0 <= j < i ==> (#[trigger] fields[j]).0 != name
}

/// There is a field of that name.
pub open spec fn has_field(fields: Seq<(Seq<char>, Seq<u8>)>, name: Seq<char>) -> bool {
    exists|i: int| 0 <= i < fields.len() && (#[trigger] fields[i]).0 == name
}

/// Looking a name up finds the value of the first field of that name, and
/// nothing exactly where there is no such field.
pub proof fn lookup_finds_the_first(fields: Seq<(Seq<char>, Seq<u8>)>, name: Seq<char>)
    ensures
        forall|i: int| #[trigger] is_first(fields, name, i) ==> lookup(fields, name) == Some(
            fields[i].1,
        ),
        (lookup(fields, name) is Some) == has_field(fields, name),
        has_field(fields, name) ==> exists|i: int| #[trigger] is_first(fields, name, i),
    decreases fields.len(),
{
    if fields.len() > 0 {
        let rest = fields.skip(1);
        lookup_finds_the_first(rest, name);
        if fields[0].0 == name {
            assert(is_first(fields, name, 0));
            assert forall|i: int| #[trigger] is_first(fields, name, i) implies i == 0 by {
                if i > 0 {
                    assert(fields[0].0 != name);
                }
            }
        } else {
            assert forall|i: int| #[trigger] is_first(fields, name, i) implies lookup(fields, name)
                == Some(fields[i].1) by {
                assert(rest[i - 1] == fields[i]);
                assert forall|j: int| 0 <= j < i - 1 implies (#[trigger] rest[j]).0 != name by {
                    assert(rest[j] == fields[j + 1]);
                }
                assert(is_first(rest, name, i - 1));
            }
            if has_field(fields, name) {
                let i = choose|i: int| 0 <= i < fields.len() && (#[trigger] fields[i]).0 == name;
                assert(rest[i - 1].0 == name);
            }
            if has_field(rest, name) {
                let i = choose|i: int| #[trigger] is_first(rest, name, i);
                assert(fields[i + 1] == rest[i]);
                assert forall|j: int| 0 <= j < i + 1 implies (#[trigger] fields[j]).0 != name by {
                    if j > 0 {
                        assert(rest[j - 1] == fields[j]);
                    }
                }
                assert(is_first(fields, name, i + 1));
            }
        }
    }
}

/// A field of another name does not change what is found.
pub proof fn lookup_passes_other_names_over(
    before: Seq<(Seq<char>, Seq<u8>)>,
    other: (Seq<char>, Seq<u8>),
    after: Seq<(Seq<char>, Seq<u8>)>,
    name: Seq<char>,
)
    requires
        other.0 != name,
    ensures
        lookup(before.push(other) + after, name) == lookup(before + after, name),
    decreases before.len(),
{
    let longer = before.push(other) + after;
    let shorter = before + after;
    if before.len() == 0 {
        assert(longer[0] == other);
        assert(longer.skip(1) =~= shorter);
    } else {
        lookup_passes_other_names_over(before.skip(1), other, after, name);
        assert(longer[0] == before[0] && shorter[0] == before[0]);
        assert(longer.skip(1) =~= before.skip(1).push(other) + after);
        assert(shorter.skip(1) =~= before.skip(1) + after);
    }
}

/// The fields of another name, in their order.
pub proof fn removing_a_name_keeps_the_others(fields: Seq<(Seq<char>, Seq<u8>)>, name: Seq<char>)
    ensures
        without(fields, name) == fields.filter(|f: (Seq<char>, Seq<u8>)| f.0 != name),
        !has_field(without(fields, name), name),
    decreases fields.len(),
{
    let other = |f: (Seq<char>, Seq<u8>)| f.0 != name;
    if fields.len() > 0 {
        let rest = fields.skip(1);
        removing_a_name_keeps_the_others(rest, name);
        assert(fields =~= seq![fields[0]] + rest);
        Seq::filter_distributes_over_add(seq![fields[0]], rest, other);
        reveal(Seq::filter);
        let one = seq![fields[0]];
        let none = Seq::<(Seq<char>, Seq<u8>)>::empty();
        assert(none.filter(other) =~= none);
        assert(one.drop_last() =~= none);
        assert(one.last() == fields[0]);
        if fields[0].0 == name {
            assert(one.filter(other) =~= none);
        } else {
            assert(one.filter(other) =~= one);
        }
        assert(without(fields, name) =~= fields.filter(other));
    } else {
        reveal(Seq::filter);
        assert(without(fields, name) =~= fields.filter(other));
    }
    broadcast use vstd::seq_lib::group_filter_ensures;

    let left = fields.filter(other);
    assert forall|i: int| 0 <= i < left.len() implies (#[trigger] left[i]).0 != name by {
        assert(other(left[i]));
    }
}

/// The letter case aside, a byte is that character.
pub open spec fn is_letter(b: u8, c: char) -> bool {
    b as int == c as int || ('a' <= c <= 'z' && b as int == c as int - 32)
}

/// The letter case aside, a word stands in the bytes at that position.
pub open spec fn word_at(bytes: Seq<u8>, word: Seq<char>, i: int) -> bool {
    &&& 0 <= i
    &&& i + word.len() <= bytes.len()
    &&& forall|k: int| 0 <= k < word.len() ==> is_letter(bytes[i + k], #[trigger] word[k])
}

/// A value is visible and holds a word, in whatever letter case.
pub open spec fn holds_word(value: Seq<u8>, word: Seq<char>) -> bool {
    &&& forall|i: int| 0 <= i < value.len() ==> 32 <= #[trigger] value[i] < 127 || value[i] == 9
    &&& exists|i: int| #[trigger] word_at(value, word, i)
}

/// A word in small characters.
pub open spec fn is_small(word: Seq<char>) -> bool {
    word.len() > 0 && forall|i: int|
        0 <= i < word.len() ==> (#[trigger] word[i]) as int <= 127 && !('A' <= word[i] <= 'Z')
}

/// Words stand in the lowered text of ASCII bytes where they stand in the bytes,
/// the letter case aside.
pub proof fn lemma_lowered_word(bytes: Seq<u8>, word: Seq<char>, i: int)
    requires
        is_small(word),
        forall|k: int| 0 <= k < bytes.len() ==> #[trigger] bytes[k] < 128,
    ensures
        text::occurs_at(text::ascii_lowercase(ascii_text(bytes)), word, i) == word_at(
            bytes,
            word,
            i,
        ),
{
    let low = text::ascii_lowercase(ascii_text(bytes));
    if 0 <= i && i + word.len() <= bytes.len() {
        assert forall|k: int| 0 <= k < word.len() implies (low[i + k] == #[trigger] word[k])
            == is_letter(bytes[i + k], word[k]) by {
            assert(bytes[i + k] < 128);
        }
        if text::occurs_at(low, word, i) {
            assert forall|k: int| 0 <= k < word.len() implies is_letter(
                bytes[i + k],
                #[trigger] word[k],
            ) by {
                assert(low.subrange(i, i + word.len())[k] == low[i + k]);
            }
        }
        if word_at(bytes, word, i) {
            assert(low.subrange(i, i + word.len()) =~= word) by {
                assert forall|k: int| 0 <= k < word.len() implies low.subrange(i, i + word.len())[k]
                    == #[trigger] word[k] by {
                    assert(is_letter(bytes[i + k], word[k]));
                }
            }
        }
    }
}

/// The first value of a name mentions a word exactly where it is visible and
/// holds the word, in whatever letter case.
pub proof fn values_are_read_in_any_letter_case(
    fields: Seq<(Seq<char>, Seq<u8>)>,
    name: Seq<char>,
    word: Seq<char>,
)
    requires
        is_small(word),
    ensures
        forall|i: int| #[trigger] is_first(fields, name, i) ==> mentions(fields, name, word)
            == holds_word(fields[i].1, word),
        !has_field(fields, name) ==> !mentions(fields, name, word),
{
    lookup_finds_the_first(fields, name);
    assert forall|i: int| #[trigger] is_first(fields, name, i) implies mentions(fields, name, word)
        == holds_word(fields[i].1, word) by {
        let value = fields[i].1;
        if is_visible(value) {
            assert forall|k: int| 0 <= k < value.len() implies #[trigger] value[k] < 128 by {
                assert(is_visible_byte(value[k]));
            }
            assert forall|k: int| 0 <= k < value.len() implies 32 <= #[trigger] value[k] < 127
                || value[k] == 9 by {
                assert(is_visible_byte(value[k]));
            }
            if text::contains(keyword_text(value), word) {
                let k = choose|k: int| text::occurs_at(keyword_text(value), word, k);
                lemma_lowered_word(value, word, k);
            }
            if holds_word(value, word) {
                let k = choose|k: int| #[trigger] word_at(value, word, k);
                lemma_lowered_word(value, word, k);
                assert(text::occurs_at(keyword_text(value), word, k));
            }
        } else {
            let k = choose|k: int| 0 <= k < value.len() && !is_visible_byte(#[trigger] value[k]);
            assert(!(32 <= value[k] < 127 || value[k] == 9));
            assert(keyword_text(value).len() == 0);
        }
    }
}

/// The words that decide how a connection goes on are in small characters.
pub proof fn lemma_known_words()
    ensures
        is_small("websocket"@),
        is_small("upgrade"@),
        is_small("close"@),
        is_small("keep-alive"@),
        is_small("chunked"@),
{
    reveal_strlit("websocket");
    reveal_strlit("upgrade");
    reveal_strlit("close");
    reveal_strlit("keep-alive");
    reveal_strlit("chunked");
}

/// The first field of a name holds a word, in whatever letter case.
pub open spec fn first_holds(
    fields: Seq<(Seq<char>, Seq<u8>)>,
    name: Seq<char>,
    word: Seq<char>,
) -> bool {
    exists|i: int| #[trigger] is_first(fields, name, i) && holds_word(fields[i].1, word)
}

/// Mentioning is what the first field of the name does.
pub proof fn lemma_mentions(fields: Seq<(Seq<char>, Seq<u8>)>, name: Seq<char>, word: Seq<char>)
    requires
        is_small(word),
    ensures
        mentions(fields, name, word) == first_holds(fields, name, word),
{
    values_are_read_in_any_letter_case(fields, name, word);
    lookup_finds_the_first(fields, name);
    if mentions(fields, name, word) {
        let i = choose|i: int| #[trigger] is_first(fields, name, i);
        assert(holds_word(fields[i].1, word));
    }
}

/// Putting a value under a name leaves every field of another name where it
/// stands, puts the value in the place of the first field of the name, or at the
/// end where there is none, and leaves no other field of the name.
pub proof fn putting_replaces_the_first(
    fields: Seq<(Seq<char>, Seq<u8>)>,
    name: Seq<char>,
    value: Seq<u8>,
)
    ensures
        !has_field(fields, name) ==> put(fields, name, value) == fields.push((name, value)),
        forall|i: int| #[trigger] is_first(fields, name, i) ==> put(fields, name, value)
            == fields.take(i).push((name, value)) + fields.skip(i + 1).filter(
            |f: (Seq<char>, Seq<u8>)| f.0 != name,
        ),
    decreases fields.len(),
{
    let other = |f: (Seq<char>, Seq<u8>)| f.0 != name;
    if !has_field(fields, name) {
        lemma_put_new(fields, name, value);
    }
    assert forall|i: int| #[trigger] is_first(fields, name, i) implies put(fields, name, value)
        == fields.take(i).push((name, value)) + fields.skip(i + 1).filter(other) by {
        let rest = fields.skip(1);
        if i == 0 {
            removing_a_name_keeps_the_others(rest, name);
            assert(fields.take(0).push((name, value)) =~= seq![(name, value)]);
        } else {
            assert(fields[0].0 != name);
            assert(rest[i - 1] == fields[i]);
            assert forall|j: int| 0 <= j < i - 1 implies (#[trigger] rest[j]).0 != name by {
                assert(rest[j] == fields[j + 1]);
            }
            assert(is_first(rest, name, i - 1));
            putting_replaces_the_first(rest, name, value);
            assert(rest.skip(i) =~= fields.skip(i + 1));
            assert(seq![fields[0]] + rest.take(i - 1).push((name, value)) =~= fields.take(i).push(
                (name, value),
            ));
            assert(put(fields, name, value) =~= fields.take(i).push((name, value)) + fields.skip(
                i + 1,
            ).filter(other));
        }
    }
}

/// A value can be stored exactly where it holds no control bytes but tabs, and can be
/// shown as text where it is ASCII as well. A name can be stored where it is a token of
/// up to 65535 characters.
pub proof fn values_hold_no_control_bytes(b: u8, name: Seq<char>)
    ensures
        is_value_byte(b) == (b == 9 || 32 <= b <= 126 || b >= 128),
        is_visible_byte(b) == (b == 9 || 32 <= b <= 126),
        is_storable_name(name) == (is_token(name) && name.len() <= 65_535),
{
}

} // verus!
