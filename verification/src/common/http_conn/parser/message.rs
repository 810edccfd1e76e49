//! What requests and responses share once their heads are read.

use crate::common::http_conn::connection;
use crate::common::http_conn::connection::ConnectionType;
use crate::common::http_conn::headers;
use crate::common::http_conn::headers::RawHeader;
use crate::common::http_conn::parser::head;
use crate::common::http_conn::types;
use crate::text;
use http::HeaderMap;
use vstd::prelude::*;

verus! {

/// Why a message could not be parsed.
#[derive(Debug, Clone, Copy, PartialEq, Eq, Structural)]
pub enum ParseErrorKind {
    /// More has to arrive.
    WouldBlock,
    /// What arrived is no message.
    InvalidData,
}

/// An error in parsing a message.
#[derive(Debug)]
pub struct ParseError {
    pub kind: ParseErrorKind,
    pub message: String,
}

/// How a minor version is written; without one it is the later version.
pub open spec fn version_text(minor: Option<u8>) -> Seq<char> {
    if minor == Some(0u8) {
        "HTTP/1.0"@
    } else {
        "HTTP/1.1"@
    }
}

/// How a minor version is written.
pub(crate) fn version_of(minor: Option<u8>) -> (r: String)
    ensures
        r@ == version_text(minor),
{
    match minor {
        Some(0) => "HTTP/1.0".to_owned(),
        _ => "HTTP/1.1".to_owned(),
    }
}

/// A header line that can be stored as a field.
pub open spec fn is_storable(field: (Seq<char>, Seq<u8>)) -> bool {
    &&& vstd::utf8::valid_utf8(field.1)
    &&& headers::is_storable_name(field.0)
    &&& headers::is_storable_value(field.1)
}

/// The fields that header lines are stored as: each line that can be stored
/// sets its name, in lower case, to its value.
pub open spec fn stored_fields(lines: Seq<(Seq<char>, Seq<u8>)>) -> Seq<(Seq<char>, Seq<u8>)>
    decreases lines.len(),
{
    if lines.len() == 0 {
        Seq::empty()
    } else {
        let before = stored_fields(lines.drop_last());
        if is_storable(lines.last()) {
            headers::put(before, text::ascii_lowercase(lines.last().0), lines.last().1)
        } else {
            before
        }
    }
}

/// A field that is stored as it is written: a name without capitals that is
/// not too long, and a visible value that is not padded.
pub open spec fn is_plain_stored_field(field: (Seq<char>, Seq<u8>)) -> bool {
    &&& headers::is_field_name(field.0)
    &&& field.0.len() <= headers::MAX_NAME_LEN
    &&& headers::is_visible(field.1)
    &&& head::is_plain_value(field.1)
}

/// Fields that are stored as they are written: there are not too many, each is
/// plain, and their names differ.
pub open spec fn are_plain_fields(fields: Seq<(Seq<char>, Seq<u8>)>) -> bool {
    &&& fields.len() <= head::MAX_HEADERS
    &&& forall|i: int| 0 <= i < fields.len() ==> is_plain_stored_field(#[trigger] fields[i])
    &&& forall|i: int, j: int|
        0 <= i < j < fields.len() ==> (#[trigger] fields[i]).0 != (#[trigger] fields[j]).0
}

/// Plain fields read back as they are written.
pub proof fn lemma_plain_fields(fields: Seq<(Seq<char>, Seq<u8>)>)
    requires
        are_plain_fields(fields),
    ensures
        types::printed_fields(fields) == fields,
        stored_fields(fields) == fields,
        forall|i: int| 0 <= i < fields.len() ==> head::is_plain_field(#[trigger] fields[i]),
{
    assert(types::printed_fields(fields) =~= fields) by {
        assert forall|i: int| 0 <= i < fields.len() implies types::printed_fields(fields)[i]
            == fields[i] by {
            assert(is_plain_stored_field(fields[i]));
        }
    }
    assert forall|i: int| 0 <= i < fields.len() implies head::is_plain_field(
        #[trigger] fields[i],
    ) by {
        assert(is_plain_stored_field(fields[i]));
    }
    lemma_stored_plain(fields);
}

/// The two versions that heads are read with differ.
pub proof fn lemma_versions_differ()
    ensures
        "HTTP/1.0"@ != "HTTP/1.1"@,
{
    reveal_strlit("HTTP/1.0");
    reveal_strlit("HTTP/1.1");
    assert("HTTP/1.0"@[7] != "HTTP/1.1"@[7]);
}

/// The minor version of a written version.
pub open spec fn minor_of(version: Seq<char>) -> u8 {
    if version == "HTTP/1.0"@ {
        0
    } else {
        1
    }
}

proof fn lemma_field_name_lowered(s: Seq<char>)
    requires
        headers::is_field_name(s),
    ensures
        text::ascii_lowercase(s) == s,
        headers::is_token(s),
{
    assert(text::ascii_lowercase(s) =~= s);
}

/// ASCII bytes are the encoding of a text.
pub proof fn lemma_ascii_is_text(v: Seq<u8>)
    requires
        forall|i: int| 0 <= i < v.len() ==> #[trigger] v[i] < 128,
    ensures
        vstd::utf8::valid_utf8(v),
        vstd::utf8::decode_utf8(v) == headers::ascii_text(v),
        vstd::utf8::is_ascii_chars(headers::ascii_text(v)),
{
    let t = headers::ascii_text(v);
    assert(vstd::utf8::is_ascii_chars(t)) by {
        assert forall|i: int| 0 <= i < t.len() implies '\0' <= #[trigger] t[i] <= '\u{7f}' by {
            assert(v[i] < 128);
        }
    }
    vstd::utf8::is_ascii_chars_encode_utf8(t);
    assert(vstd::utf8::encode_utf8(t) =~= v) by {
        assert forall|i: int| 0 <= i < v.len() implies vstd::utf8::encode_utf8(t)[i] == v[i] by {
            assert(v[i] < 128);
            assert(t[i] as u8 == v[i]);
        }
    }
    vstd::utf8::encode_utf8_valid_utf8(t);
    vstd::utf8::encode_utf8_decode_utf8(t);
}

/// Plain fields of different names are stored as they are.
proof fn lemma_stored_plain(fields: Seq<(Seq<char>, Seq<u8>)>)
    requires
        forall|i: int| 0 <= i < fields.len() ==> is_plain_stored_field(#[trigger] fields[i]),
        forall|i: int, j: int|
            0 <= i < j < fields.len() ==> (#[trigger] fields[i]).0 != (#[trigger] fields[j]).0,
    ensures
        stored_fields(fields) == fields,
    decreases fields.len(),
{
    if fields.len() > 0 {
        let before = fields.drop_last();
        assert forall|i: int| 0 <= i < before.len() implies is_plain_stored_field(
            #[trigger] before[i],
        ) by {
            assert(before[i] == fields[i]);
        }
        assert forall|i: int, j: int| 0 <= i < j < before.len() implies (#[trigger] before[i]).0
            != (#[trigger] before[j]).0 by {
            assert(before[i] == fields[i]);
            assert(before[j] == fields[j]);
        }
        lemma_stored_plain(before);
        let last = fields.last();
        assert(is_plain_stored_field(fields[fields.len() - 1]));
        assert forall|i: int| 0 <= i < last.1.len() implies #[trigger] last.1[i] < 128 by {
            assert(headers::is_visible_byte(last.1[i]));
        }
        lemma_ascii_is_text(last.1);
        lemma_field_name_lowered(last.0);
        assert forall|i: int| 0 <= i < before.len() implies (#[trigger] before[i]).0 != last.0 by {
            assert(before[i] == fields[i]);
            assert(last == fields[fields.len() - 1]);
        }
        headers::lemma_put_new(before, last.0, last.1);
        assert(before.push(last) =~= fields);
        assert((last.0, last.1) == last);
    } else {
        assert(fields =~= Seq::empty());
    }
}

/// Storing lines gives no more fields than there are lines.
proof fn lemma_stored_len(lines: Seq<(Seq<char>, Seq<u8>)>)
    ensures
        stored_fields(lines).len() <= lines.len(),
    decreases lines.len(),
{
    if lines.len() > 0 {
        lemma_stored_len(lines.drop_last());
        headers::lemma_put_len(
            stored_fields(lines.drop_last()),
            text::ascii_lowercase(lines.last().0),
            lines.last().1,
        );
    }
}

/// Stores header lines as fields.
pub(crate) fn store_fields(list: &Vec<RawHeader>) -> (map: HeaderMap)
    requires
        list@.len() <= head::MAX_HEADERS,
    ensures
        headers::header_fields(map) == stored_fields(headers::raw_fields(list@)),
{
    let mut map = headers::empty_headers();
    let ghost lines = headers::raw_fields(list@);
    let mut i: usize = 0;
    assert(stored_fields(lines.take(0)) =~= Seq::empty());
    while i < list.len()
        invariant
            i <= list@.len(),
            list@.len() <= head::MAX_HEADERS,
            lines == headers::raw_fields(list@),
            headers::header_fields(map) == stored_fields(lines.take(i as int)),
        decreases list@.len() - i,
    {
        let ghost line = list@[i as int]@;
        proof {
            assert(lines[i as int] == line);
            assert(lines.take(i + 1).drop_last() =~= lines.take(i as int));
            assert(lines.take(i + 1).last() == line);
            lemma_stored_len(lines.take(i as int));
        }
        if let Some(value) = text::utf8_text(list[i].value.as_slice()) {
            proof {
                vstd::utf8::decode_utf8_encode_utf8(line.1);
            }
            if let Some(name) = headers::header_name(list[i].name.as_str()) {
                if let Some(val) = headers::header_value(value) {
                    headers::insert_header(&mut map, name, val);
                }
            }
        }
        i += 1;
    }
    assert(lines.take(i as int) =~= lines);
    map
}

/// What stands after the head, if anything does.
pub open spec fn body_after(buf: Seq<u8>, len: int) -> Option<Seq<u8>> {
    if buf.len() > len {
        Some(buf.skip(len))
    } else {
        None
    }
}

pub(crate) fn take_body(buf: &[u8], len: usize) -> (r: Option<Vec<u8>>)
    requires
        len <= buf@.len(),
    ensures
        types::body_view(r) == body_after(buf@, len as int),
{
    if buf.len() > len {
        let body = vstd::slice::slice_to_vec(vstd::slice::slice_subrange(buf, len, buf.len()));
        assert(body@ =~= buf@.skip(len as int));
        Some(body)
    } else {
        None
    }
}

// ---------------------------------------------------------------------------
// Laws
// ---------------------------------------------------------------------------

/// A header line whose name is a token that is not too long and whose value is
/// visible.
pub open spec fn is_readable_line(line: (Seq<char>, Seq<u8>)) -> bool {
    &&& headers::is_token(line.0)
    &&& line.0.len() <= 65535
    &&& forall|i: int|
        0 <= i < line.1.len() ==> 32 <= #[trigger] line.1[i] < 127 || line.1[i] == 9
}

/// The line has that name, in whatever letter case.
pub open spec fn is_named(line: (Seq<char>, Seq<u8>), name: Seq<char>) -> bool {
    text::ascii_lowercase(line.0) == name
}

/// The line is the last of its name.
pub open spec fn is_last_line(
    lines: Seq<(Seq<char>, Seq<u8>)>,
    name: Seq<char>,
    i: int,
) -> bool {
    &&& 0 <= i < lines.len()
    &&& is_named(lines[i], name)
    &&& forall|j: int| i < j < lines.len() ==> !is_named(#[trigger] lines[j], name)
}

/// No line has that name.
pub open spec fn has_no_line(lines: Seq<(Seq<char>, Seq<u8>)>, name: Seq<char>) -> bool {
    forall|j: int| 0 <= j < lines.len() ==> !is_named(#[trigger] lines[j], name)
}

/// A readable line can be stored.
proof fn lemma_readable_is_storable(line: (Seq<char>, Seq<u8>))
    requires
        is_readable_line(line),
    ensures
        is_storable(line),
{
    assert forall|i: int| 0 <= i < line.1.len() implies #[trigger] line.1[i] < 128 by {}
    lemma_ascii_is_text(line.1);
    assert forall|i: int| 0 <= i < line.1.len() implies headers::is_value_byte(
        #[trigger] line.1[i],
    ) by {}
}

/// Of the lines of a name, in whatever letter case, the last one counts, and
/// where there is none nothing is found.
pub proof fn last_lines_count(lines: Seq<(Seq<char>, Seq<u8>)>, name: Seq<char>)
    ensures
        forall|i: int| #[trigger]
            is_last_line(lines, name, i) && is_readable_line(lines[i]) ==> headers::lookup(
                stored_fields(lines),
                name,
            ) == Some(lines[i].1),
        has_no_line(lines, name) ==> headers::lookup(stored_fields(lines), name) is None,
    decreases lines.len(),
{
    if lines.len() > 0 {
        let before = lines.drop_last();
        let last = lines.last();
        let small = text::ascii_lowercase(last.0);
        last_lines_count(before, name);
        headers::lemma_lookup_put_same(stored_fields(before), small, last.1);
        if small != name {
            headers::lemma_lookup_put_other(stored_fields(before), small, last.1, name);
        }
        assert forall|i: int| #[trigger]
            is_last_line(lines, name, i) && is_readable_line(lines[i]) implies headers::lookup(
            stored_fields(lines),
            name,
        ) == Some(lines[i].1) by {
            if i == lines.len() - 1 {
                lemma_readable_is_storable(last);
            } else {
                assert(!is_named(lines[lines.len() - 1], name));
                assert(before[i] == lines[i]);
                assert forall|j: int| i < j < before.len() implies !is_named(
                    #[trigger] before[j],
                    name,
                ) by {
                    assert(before[j] == lines[j]);
                }
                assert(is_last_line(before, name, i));
            }
        }
        if has_no_line(lines, name) {
            assert(!is_named(lines[lines.len() - 1], name));
            assert forall|j: int| 0 <= j < before.len() implies !is_named(
                #[trigger] before[j],
                name,
            ) by {
                assert(before[j] == lines[j]);
            }
        }
    }
}

/// What the last `connection` line holds is what the first `connection` field
/// holds, and without an `upgrade` line nothing changes to a WebSocket.
proof fn lemma_connection_line(lines: Seq<(Seq<char>, Seq<u8>)>, i: int) -> (k: int)
    requires
        is_last_line(lines, "connection"@, i),
        is_readable_line(lines[i]),
    ensures
        headers::is_first(stored_fields(lines), "connection"@, k),
        stored_fields(lines)[k].1 == lines[i].1,
        has_no_line(lines, "upgrade"@) ==> !connection::is_websocket_change(stored_fields(lines)),
{
    let fields = stored_fields(lines);
    last_lines_count(lines, "connection"@);
    last_lines_count(lines, "upgrade"@);
    headers::lookup_finds_the_first(fields, "connection"@);
    headers::lookup_finds_the_first(fields, "upgrade"@);
    choose|k: int| #[trigger] headers::is_first(fields, "connection"@, k)
}

/// A head whose last `connection` line holds `close`, names and value in any
/// letter case, and that has no `upgrade` line closes the connection, whatever
/// its other lines and its version are.
pub proof fn closing_lines_close(lines: Seq<(Seq<char>, Seq<u8>)>, version: Seq<char>, i: int)
    requires
        is_last_line(lines, "connection"@, i),
        is_readable_line(lines[i]),
        headers::holds_word(lines[i].1, "close"@),
        has_no_line(lines, "upgrade"@),
    ensures
        connection::connection_type_of(stored_fields(lines), version) == ConnectionType::Close,
{
    let k = lemma_connection_line(lines, i);
    connection::closing_fields_close(stored_fields(lines), version, k);
}

/// A head whose last `connection` line holds `keep-alive` and not `close`, and
/// that has no `upgrade` line keeps the connection, whatever its other lines and
/// its version are.
pub proof fn keeping_lines_keep(lines: Seq<(Seq<char>, Seq<u8>)>, version: Seq<char>, i: int)
    requires
        is_last_line(lines, "connection"@, i),
        is_readable_line(lines[i]),
        headers::holds_word(lines[i].1, "keep-alive"@),
        !headers::holds_word(lines[i].1, "close"@),
        has_no_line(lines, "upgrade"@),
    ensures
        connection::connection_type_of(stored_fields(lines), version) == ConnectionType::KeepAlive,
{
    let k = lemma_connection_line(lines, i);
    connection::keeping_fields_keep(stored_fields(lines), version, k);
}

/// A head without a `connection` line closes the connection exactly where its
/// version is HTTP/1.0, whatever its other lines are.
pub proof fn silent_heads_leave_it_to_the_version(
    lines: Seq<(Seq<char>, Seq<u8>)>,
    version: Seq<char>,
)
    requires
        has_no_line(lines, "connection"@),
    ensures
        connection::connection_type_of(stored_fields(lines), version) == (if version
            == "HTTP/1.0"@ {
            ConnectionType::Close
        } else {
            ConnectionType::KeepAlive
        }),
{
    let fields = stored_fields(lines);
    last_lines_count(lines, "connection"@);
    headers::lookup_finds_the_first(fields, "connection"@);
    assert forall|k: int| !#[trigger] headers::is_first(fields, "connection"@, k) by {
        if headers::is_first(fields, "connection"@, k) {
            assert(fields[k].0 == "connection"@);
        }
    }
    connection::silent_fields_leave_it_to_the_version(fields, version);
}

/// A head that asks for a WebSocket, in lines of any letter case and any order,
/// changes the connection to one.
pub proof fn upgrading_lines_upgrade(
    lines: Seq<(Seq<char>, Seq<u8>)>,
    version: Seq<char>,
    i: int,
    j: int,
    k: int,
)
    requires
        is_last_line(lines, "connection"@, i),
        is_last_line(lines, "upgrade"@, j),
        is_last_line(lines, "sec-websocket-key"@, k),
        is_readable_line(lines[i]),
        is_readable_line(lines[j]),
        is_readable_line(lines[k]),
        headers::holds_word(lines[i].1, "upgrade"@),
        headers::holds_word(lines[j].1, "websocket"@),
    ensures
        connection::connection_type_of(stored_fields(lines), version)
            == ConnectionType::WebSocketUpgrade,
        crate::common::http_conn::upgrade::asks_for_websocket(stored_fields(lines)),
{
    let fields = stored_fields(lines);
    last_lines_count(lines, "connection"@);
    last_lines_count(lines, "upgrade"@);
    last_lines_count(lines, "sec-websocket-key"@);
    headers::lookup_finds_the_first(fields, "connection"@);
    headers::lookup_finds_the_first(fields, "upgrade"@);
    headers::lookup_finds_the_first(fields, "sec-websocket-key"@);
    let a = choose|a: int| #[trigger] headers::is_first(fields, "connection"@, a);
    let b = choose|b: int| #[trigger] headers::is_first(fields, "upgrade"@, b);
    assert(headers::holds_word(fields[a].1, "upgrade"@));
    assert(headers::holds_word(fields[b].1, "websocket"@));
    connection::websocket_changes_are_obeyed(fields, version);
    crate::common::http_conn::upgrade::upgrade_requests_say_so(fields);
}

/// Lines are stored one after the other: a readable line sets its name, in lower case,
/// to its value; one whose name or value cannot be stored is left out.
pub proof fn lines_are_stored_in_turn(
    lines: Seq<(Seq<char>, Seq<u8>)>,
    line: (Seq<char>, Seq<u8>),
)
    ensures
        stored_fields(Seq::empty()) == Seq::<(Seq<char>, Seq<u8>)>::empty(),
        is_readable_line(line) ==> stored_fields(lines.push(line)) == headers::put(
            stored_fields(lines),
            text::ascii_lowercase(line.0),
            line.1,
        ),
        line.0.len() > 65535 || !headers::is_token(line.0) || !vstd::utf8::valid_utf8(line.1) || (
        exists|i: int|
            0 <= i < line.1.len() && (#[trigger] line.1[i] < 32 && line.1[i] != 9 || line.1[i]
                == 127)) ==> stored_fields(lines.push(line)) == stored_fields(lines),
{
    assert(lines.push(line).drop_last() =~= lines);
    if is_readable_line(line) {
        lemma_readable_is_storable(line);
    }
    if exists|i: int|
        0 <= i < line.1.len() && (#[trigger] line.1[i] < 32 && line.1[i] != 9 || line.1[i]
            == 127) {
        let i = choose|i: int|
            0 <= i < line.1.len() && (#[trigger] line.1[i] < 32 && line.1[i] != 9 || line.1[i]
                == 127);
        assert(!headers::is_value_byte(line.1[i]));
    }
}

/// Whatever stands behind a head is the body, and nothing where nothing does. Every
/// version but the first is written as the second.
pub proof fn bodies_follow_the_head(head: Seq<u8>, rest: Seq<u8>, minor: Option<u8>)
    ensures
        rest.len() > 0 ==> body_after(head + rest, head.len() as int) == Some(rest),
        rest.len() == 0 ==> body_after(head + rest, head.len() as int) is None,
        minor == Some(0u8) ==> version_text(minor) == "HTTP/1.0"@,
        minor != Some(0u8) ==> version_text(minor) == "HTTP/1.1"@,
{
    assert((head + rest).skip(head.len() as int) =~= rest);
}

/// Fields are stored as they are written where there are up to 64, their names are
/// tokens without capitals that differ and are not too long, and their values are
/// visible and not padded.
pub proof fn fields_of_plain_parts_are_plain(fields: Seq<(Seq<char>, Seq<u8>)>)
    requires
        fields.len() <= 64,
        forall|i: int|
            0 <= i < fields.len() ==> headers::is_token((#[trigger] fields[i]).0)
                && fields[i].0.len() <= 65_535 && text::ascii_lowercase(fields[i].0) == fields[i].0,
        forall|i: int, j: int|
            0 <= i < j < fields.len() ==> (#[trigger] fields[i]).0 != (#[trigger] fields[j]).0,
        forall|i: int, k: int|
            0 <= i < fields.len() && 0 <= k < fields[i].1.len() ==> (#[trigger] fields[i].1[k]) == 9
                || 32 <= fields[i].1[k] <= 126,
        forall|i: int|
            0 <= i < fields.len() && (#[trigger] fields[i]).1.len() > 0 ==> fields[i].1[0] != 32
                && fields[i].1[0] != 9 && fields[i].1.last() != 32 && fields[i].1.last() != 9,
    ensures
        are_plain_fields(fields),
{
    assert forall|i: int| 0 <= i < fields.len() implies is_plain_stored_field(
        #[trigger] fields[i],
    ) by {
        let (name, value) = fields[i];
        assert(headers::is_token(fields[i].0));
        assert forall|k: int| 0 <= k < name.len() implies headers::is_token_char(
            #[trigger] name[k],
        ) && !('A' <= name[k] <= 'Z') by {
            assert(text::ascii_lowercase(name)[k] == text::ascii_lower_char(name[k]));
        }
        assert forall|k: int| 0 <= k < value.len() implies headers::is_visible_byte(
            #[trigger] value[k],
        ) && headers::is_value_byte(value[k]) by {
            assert(fields[i].1[k] == value[k]);
        }
    }
}

} // verus!
