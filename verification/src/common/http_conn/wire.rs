//! How message heads are written.

use vstd::prelude::*;

verus! {

/// The end of a line: a carriage return and a line feed.
pub open spec fn crlf() -> Seq<u8> {
    seq![13u8, 10u8]
}

/// One header line: the name, a colon and a space, the value, the end of the
/// line.
pub open spec fn field_line(field: (Seq<char>, Seq<u8>)) -> Seq<u8> {
    vstd::utf8::encode_utf8(field.0) + seq![58u8, 32u8] + field.1 + crlf()
}

/// The header lines, in order.
pub open spec fn field_lines(fields: Seq<(Seq<char>, Seq<u8>)>) -> Seq<u8>
    decreases fields.len(),
{
    if fields.len() == 0 {
        Seq::empty()
    } else {
        field_lines(fields.drop_last()) + field_line(fields.last())
    }
}

/// The request line: method, target and version, with single spaces between.
pub open spec fn request_line(
    method: Seq<char>,
    target: Seq<char>,
    version: Seq<char>,
) -> Seq<u8> {
    vstd::utf8::encode_utf8(method) + seq![32u8] + vstd::utf8::encode_utf8(target) + seq![32u8]
        + vstd::utf8::encode_utf8(version) + crlf()
}

/// A request head: the request line, the header lines, an empty line.
pub open spec fn request_head(
    method: Seq<char>,
    target: Seq<char>,
    version: Seq<char>,
    fields: Seq<(Seq<char>, Seq<u8>)>,
) -> Seq<u8> {
    request_line(method, target, version) + field_lines(fields) + crlf()
}

/// A status in three digits.
pub open spec fn status_digits(code: u16) -> Seq<u8> {
    seq![(48 + code / 100) as u8, (48 + code / 10 % 10) as u8, (48 + code % 10) as u8]
}

/// The status line: version, status and reason, with single spaces between.
pub open spec fn status_line(version: Seq<char>, code: u16, reason: Seq<char>) -> Seq<u8> {
    vstd::utf8::encode_utf8(version) + seq![32u8] + status_digits(code) + seq![32u8]
        + vstd::utf8::encode_utf8(reason) + crlf()
}

/// A response head: the status line, the header lines, an empty line.
pub open spec fn response_head(
    version: Seq<char>,
    code: u16,
    reason: Seq<char>,
    fields: Seq<(Seq<char>, Seq<u8>)>,
) -> Seq<u8> {
    status_line(version, code, reason) + field_lines(fields) + crlf()
}

/// Header lines stand one behind the other, each the name, a colon and a space, the
/// value and the end of the line.
pub proof fn fields_are_written_line_by_line(
    fields: Seq<(Seq<char>, Seq<u8>)>,
    field: (Seq<char>, Seq<u8>),
)
    ensures
        field_lines(Seq::empty()) == Seq::<u8>::empty(),
        field_lines(fields.push(field)) == field_lines(fields) + vstd::utf8::encode_utf8(field.0)
            + seq![58u8, 32u8] + field.1 + seq![13u8, 10u8],
{
    assert(fields.push(field).drop_last() =~= fields);
    assert(field_lines(fields.push(field)) =~= field_lines(fields) + vstd::utf8::encode_utf8(
        field.0,
    ) + seq![58u8, 32u8] + field.1 + seq![13u8, 10u8]);
}

/// A response head is its status line, its header lines and an empty line; the status
/// is written in three digits that make up its number.
pub proof fn response_heads_are_written_in_lines(
    version: Seq<char>,
    code: u16,
    reason: Seq<char>,
    fields: Seq<(Seq<char>, Seq<u8>)>,
)
    requires
        code <= 999,
    ensures
        response_head(version, code, reason, fields) == vstd::utf8::encode_utf8(version)
            + seq![32u8] + status_digits(code) + seq![32u8] + vstd::utf8::encode_utf8(reason)
            + seq![13u8, 10u8] + field_lines(fields) + seq![13u8, 10u8],
        status_digits(code).len() == 3,
        forall|i: int| 0 <= i < 3 ==> 48 <= #[trigger] status_digits(code)[i] <= 57,
        100 * (status_digits(code)[0] - 48) + 10 * (status_digits(code)[1] - 48) + (status_digits(
            code,
        )[2] - 48) == code,
{
}

} // verus!
