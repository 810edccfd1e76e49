//! Whether a whole message has arrived.
//!
//! A message is judged by its text: where its head ends, what length the head
//! declares, and whether the body is sent in chunks.

use crate::common::http_conn::headers;
use crate::common::http_conn::parser::head;
use crate::common::http_conn::parser::message;
use crate::common::http_conn::parser::written;
use crate::numbers;
use crate::text;
use vstd::prelude::*;

verus! {

/// The bytes that end a head: an empty line.
pub open spec fn head_end_mark() -> Seq<u8> {
    seq![13u8, 10u8, 13u8, 10u8]
}

/// The bytes that end a body sent in chunks: a chunk without bytes.
pub open spec fn last_chunk_mark() -> Seq<u8> {
    seq![48u8, 13u8, 10u8, 13u8, 10u8]
}

/// The head as text in lower case; nothing where it is no text.
pub open spec fn lowered_head(head: Seq<u8>) -> Seq<char> {
    text::lowercase(
        if vstd::utf8::valid_utf8(head) {
            vstd::utf8::decode_utf8(head)
        } else {
            Seq::empty()
        },
    )
}

/// The length that one line of a lowered head declares: a line that begins
/// with `content-length:` does so by what stands before the next colon.
pub open spec fn line_length(line: Seq<char>) -> Option<int> {
    if text::starts_with(line, "content-length:"@) {
        let rest = line.skip("content-length:"@.len() as int);
        numbers::parse_unsigned(text::trim(rest.take(text::until(rest, ':'))), usize::MAX as int)
    } else {
        None
    }
}

/// The length that the first line to declare one declares.
pub open spec fn first_length(lines: Seq<Seq<char>>) -> Option<int>
    decreases lines.len(),
{
    if lines.len() == 0 {
        None
    } else if line_length(lines[0]) is Some {
        line_length(lines[0])
    } else {
        first_length(lines.skip(1))
    }
}

/// The length that a lowered head declares for its body.
pub open spec fn declared_length(lowered: Seq<char>) -> Option<int> {
    first_length(text::lines(lowered))
}

/// A lowered head announces a body sent in chunks.
pub open spec fn announces_chunks(lowered: Seq<char>) -> bool {
    text::contains(lowered, "transfer-encoding: chunked"@)
}

/// What a head says of where its message ends.
pub enum Extent {
    /// The body has so many bytes.
    Length(int),
    /// The body ends with an empty chunk.
    Chunks,
    /// Nothing.
    Open,
}

/// What a lowered head says of where its message ends.
pub open spec fn extent_of(lowered: Seq<char>) -> Extent {
    match declared_length(lowered) {
        Some(n) => Extent::Length(n),
        None => if announces_chunks(lowered) {
            Extent::Chunks
        } else {
            Extent::Open
        },
    }
}

/// A request whose head ends at `end` and reads `lowered` has fully arrived.
pub open spec fn request_arrived(buf: Seq<u8>, end: int, lowered: Seq<char>) -> bool {
    match extent_of(lowered) {
        Extent::Length(n) => buf.len() >= end + 4 + n,
        Extent::Chunks => text::contains(buf, last_chunk_mark()),
        Extent::Open => true,
    }
}

/// A request has fully arrived.
pub open spec fn request_complete(buf: Seq<u8>) -> bool {
    match text::find(buf, head_end_mark()) {
        Some(end) => request_arrived(buf, end, lowered_head(buf.take(end))),
        None => false,
    }
}

/// The status belongs to responses that never have a body.
pub open spec fn is_bodiless(code: u16) -> bool {
    code < 200 || code == 204 || code == 304
}

/// The head was read and its status belongs to responses without a body.
pub open spec fn has_bodiless_status(parsed: head::HeadView<head::ResponseHeadView>) -> bool {
    parsed matches head::HeadView::Complete(h) && h.code matches Some(code) && is_bodiless(code)
}

/// A response whose head ends at `end` and reads `lowered` has fully arrived,
/// as far as can be told: where its head says nothing of its end, some bytes
/// of a body are enough, and none are needed where its status allows none.
pub open spec fn response_arrived(
    buf: Seq<u8>,
    end: int,
    lowered: Seq<char>,
    parsed: head::HeadView<head::ResponseHeadView>,
) -> bool {
    match extent_of(lowered) {
        Extent::Length(n) => buf.len() >= end + 4 + n,
        Extent::Chunks => text::contains(buf, last_chunk_mark()),
        Extent::Open => has_bodiless_status(parsed) || end + 4 < buf.len(),
    }
}

/// A response has fully arrived.
pub open spec fn response_complete(buf: Seq<u8>) -> bool {
    match text::find(buf, head_end_mark()) {
        Some(end) => response_arrived(
            buf,
            end,
            lowered_head(buf.take(end)),
            head::parsed_response(buf, head::MAX_HEADERS as nat),
        ),
        None => false,
    }
}

// ---------------------------------------------------------------------------
// Executable tests
// ---------------------------------------------------------------------------

/// Where the head ends, if it does.
pub(crate) fn find_head_end(buf: &[u8]) -> (r: Option<usize>)
    ensures
        match r {
            Some(i) => text::find(buf@, head_end_mark()) == Some(i as int) && i + 4 <= buf@.len(),
            None => text::find(buf@, head_end_mark()) is None,
        },
{
    let mark: [u8; 4] = [13, 10, 13, 10];
    assert(mark@ =~= head_end_mark());
    text::find_slice(buf, mark.as_slice())
}

/// Whether the empty chunk is anywhere in the buffer.
pub(crate) fn has_last_chunk(buf: &[u8]) -> (r: bool)
    ensures
        r == text::contains(buf@, last_chunk_mark()),
{
    let mark: [u8; 5] = [48, 13, 10, 13, 10];
    assert(mark@ =~= last_chunk_mark());
    text::contains_slice(buf, mark.as_slice())
}

/// The head as text in lower case.
pub fn lower_head(head: &[u8]) -> (r: String)
    ensures
        r@ == lowered_head(head@),
{
    match text::utf8_text(head) {
        Some(s) => text::lowered(s),
        None => {
            proof {
                reveal_strlit("");
                assert(""@ =~= Seq::<char>::empty());
            }
            text::lowered("")
        },
    }
}

/// The length that one line of a lowered head declares.
fn length_in_line(line: &[char]) -> (r: Option<usize>)
    ensures
        match r {
            Some(n) => line_length(line@) == Some(n as int),
            None => line_length(line@) is None,
        },
{
    let prefix = text::chars_of("content-length:");
    if !text::starts_with_slice(line, prefix.as_slice()) {
        return None;
    }
    let start: usize = prefix.len();
    let stop: usize = text::position_of(line, ':', start);
    let value = text::trim_chars(vstd::slice::slice_subrange(line, start, stop));
    proof {
        let rest = line@.skip(start as int);
        assert(line@.subrange(start as int, stop as int) =~= rest.take(text::until(rest, ':')));
    }
    match numbers::parse_number(value.as_slice(), usize::MAX as u64) {
        Some(n) => {
            proof {
                numbers_fit(value@, n as int);
            }
            Some(n as usize)
        },
        None => None,
    }
}

/// A number that was read is not above the bound that it was read with.
proof fn numbers_fit(s: Seq<char>, n: int)
    requires
        numbers::parse_unsigned(s, usize::MAX as int) == Some(n),
    ensures
        0 <= n <= usize::MAX,
{
    numbers::lemma_value_nonnegative(numbers::after_plus(s));
}

/// The length that a lowered head declares for its body.
pub fn find_declared_length(lowered: &str) -> (r: Option<usize>)
    ensures
        match r {
            Some(n) => declared_length(lowered@) == Some(n as int),
            None => declared_length(lowered@) is None,
        },
{
    let cs = text::chars_of(lowered);
    let lines = text::split_lines(cs.as_slice());
    let ghost all = text::lines(lowered@);
    let mut i: usize = 0;
    proof {
        assert(all.skip(0) =~= all);
    }
    while i < lines.len()
        invariant
            i <= lines@.len(),
            all == text::lines(lowered@),
            all == text::contents(lines@),
            first_length(all) == first_length(all.skip(i as int)),
        decreases lines@.len() - i,
    {
        assert(all.skip(i as int)[0] == lines@[i as int]@);
        let found = length_in_line(lines[i].as_slice());
        if found.is_some() {
            return found;
        }
        assert(all.skip(i as int).skip(1) =~= all.skip(i + 1));
        i += 1;
    }
    None
}

/// Whether a lowered head announces a body sent in chunks.
pub fn is_chunked(lowered: &str) -> (r: bool)
    ensures
        r == announces_chunks(lowered@),
{
    text::contains_text(lowered, "transfer-encoding: chunked")
}

/// `buf.len() >= end + 4 + n`, whatever the size of `n`.
fn holds_body(buf: &[u8], end: usize, n: usize) -> (r: bool)
    requires
        end + 4 <= buf@.len(),
    ensures
        r == (buf@.len() >= end + 4 + n),
{
    buf.len() - end - 4 >= n
}

/// Whether a request whose head ends at `end` and reads `lowered` has fully
/// arrived.
pub fn request_has_arrived(buf: &[u8], end: usize, lowered: &str) -> (r: bool)
    requires
        end + 4 <= buf@.len(),
    ensures
        r == request_arrived(buf@, end as int, lowered@),
{
    match find_declared_length(lowered) {
        Some(n) => holds_body(buf, end, n),
        None => if is_chunked(lowered) {
            has_last_chunk(buf)
        } else {
            true
        },
    }
}

/// Whether a request has fully arrived.
pub fn is_request_complete(buf: &[u8]) -> (r: bool)
    ensures
        r == request_complete(buf@),
{
    match find_head_end(buf) {
        Some(end) => {
            let lowered = lower_head(vstd::slice::slice_subrange(buf, 0, end));
            assert(buf@.subrange(0, end as int) =~= buf@.take(end as int));
            request_has_arrived(buf, end, lowered.as_str())
        },
        None => false,
    }
}

/// Whether a response whose head ends at `end`, reads `lowered` and was
/// understood as `parsed` has fully arrived.
pub fn response_has_arrived(
    buf: &[u8],
    end: usize,
    lowered: &str,
    parsed: &head::HeadStatus<head::ResponseHead>,
) -> (r: bool)
    requires
        end + 4 <= buf@.len(),
    ensures
        r == response_arrived(buf@, end as int, lowered@, parsed@),
{
    match find_declared_length(lowered) {
        Some(n) => holds_body(buf, end, n),
        None => if is_chunked(lowered) {
            has_last_chunk(buf)
        } else {
            let bodiless = match parsed {
                head::HeadStatus::Complete(h) => match h.code {
                    Some(code) => code < 200 || code == 204 || code == 304,
                    None => false,
                },
                _ => false,
            };
            bodiless || buf.len() - end > 4
        },
    }
}

/// Whether a response has fully arrived. One that has does not cease to be
/// complete when more arrives.
pub fn is_response_complete(buf: &[u8]) -> (r: bool)
    ensures
        r == response_complete(buf@),
        r ==> forall|more: Seq<u8>| response_complete(#[trigger] (buf@ + more)),
        forall|h: head::ResponseHeadView| #[trigger]
            head::is_plain_response_head(h, head::MAX_HEADERS as nat)
                && head::response_head_bytes(h).is_prefix_of(buf@) ==> head::parsed_response(
                buf@,
                head::MAX_HEADERS as nat,
            ) == head::HeadView::Complete(h),
{
    proof {
        assert forall|h: head::ResponseHeadView| #[trigger]
            head::is_plain_response_head(h, head::MAX_HEADERS as nat)
                && head::response_head_bytes(h).is_prefix_of(buf@) implies text::find(
            buf@,
            head_end_mark(),
        ) is Some by {
            let bytes = head::response_head_bytes(h);
            let rest = buf@.skip(bytes.len() as int);
            assert(buf@ =~= bytes + rest);
            written::plain_response_heads_end_with_an_empty_line(h, rest);
        }
    }
    match find_head_end(buf) {
        Some(end) => {
            let lowered = lower_head(vstd::slice::slice_subrange(buf, 0, end));
            assert(buf@.subrange(0, end as int) =~= buf@.take(end as int));
            let parsed = head::parse_response_head(buf, head::MAX_HEADERS);
            let r = response_has_arrived(buf, end, lowered.as_str(), &parsed);
            proof {
                if r {
                    assert forall|more: Seq<u8>| response_complete(#[trigger] (buf@ + more)) by {
                        response_completeness_is_stable(buf@, more);
                    }
                }
            }
            r
        },
        None => false,
    }
}

// ---------------------------------------------------------------------------
// Laws
// ---------------------------------------------------------------------------

/// Where something is first found does not change when more follows.
pub proof fn lemma_find_extends<A>(s: Seq<A>, more: Seq<A>, pat: Seq<A>)
    ensures
        text::find(s, pat) is Some ==> text::find(s + more, pat) == text::find(s, pat),
        text::contains(s, pat) ==> text::contains(s + more, pat),
{
    assert forall|i: int| 0 <= i && i + pat.len() <= s.len() implies #[trigger] text::occurs_at(
        s + more,
        pat,
        i,
    ) == text::occurs_at(s, pat, i) by {
        assert((s + more).subrange(i, i + pat.len()) =~= s.subrange(i, i + pat.len()));
    }
    text::lemma_find_from(s, pat, 0);
    text::lemma_find_from(s + more, pat, 0);
    text::lemma_contains_is_find(s, pat);
    text::lemma_contains_is_find(s + more, pat);
    if let Some(k) = text::find(s, pat) {
        assert(text::occurs_at(s + more, pat, k));
    }
}

/// A request that has fully arrived stays complete, whatever arrives after it.
pub proof fn request_completeness_is_stable(buf: Seq<u8>, more: Seq<u8>)
    ensures
        request_complete(buf) ==> request_complete(buf + more),
{
    if request_complete(buf) {
        lemma_find_extends(buf, more, head_end_mark());
        lemma_find_extends(buf, more, last_chunk_mark());
        text::lemma_find_from(buf, head_end_mark(), 0);
        let end = text::find(buf, head_end_mark())->Some_0;
        assert((buf + more).take(end) =~= buf.take(end));
    }
}

/// A response that has fully arrived stays complete, whatever arrives after
/// it, as long as its head is understood as before.
pub proof fn response_completeness_is_stable(buf: Seq<u8>, more: Seq<u8>)
    ensures
        response_complete(buf) && (has_bodiless_status(
            head::parsed_response(buf, head::MAX_HEADERS as nat),
        ) ==> has_bodiless_status(head::parsed_response(buf + more, head::MAX_HEADERS as nat)))
            ==> response_complete(buf + more),
{
    if response_complete(buf) {
        lemma_find_extends(buf, more, head_end_mark());
        lemma_find_extends(buf, more, last_chunk_mark());
        text::lemma_find_from(buf, head_end_mark(), 0);
        let end = text::find(buf, head_end_mark())->Some_0;
        assert((buf + more).take(end) =~= buf.take(end));
    }
}

/// No bytes are no message.
pub proof fn lemma_nothing_is_incomplete(buf: Seq<u8>)
    requires
        buf.len() == 0,
    ensures
        !request_complete(buf),
        !response_complete(buf),
{
}

/// Nothing is complete before an empty line has arrived.
pub proof fn nothing_is_complete_before_an_empty_line(buf: Seq<u8>)
    requires
        forall|i: int|
            0 <= i && i + 4 <= buf.len() ==> !(#[trigger] buf[i] == 13 && buf[i + 1] == 10 && buf[i
                + 2] == 13 && buf[i + 3] == 10),
    ensures
        !request_complete(buf),
        !response_complete(buf),
{
    let mark = head_end_mark();
    text::lemma_find_from(buf, mark, 0);
    if let Some(k) = text::find(buf, mark) {
        let t = buf.subrange(k, k + mark.len());
        assert(t == mark);
        assert(t[0] == buf[k] && t[1] == buf[k + 1] && t[2] == buf[k + 2] && t[3] == buf[k + 3]);
        assert(!(buf[k] == 13 && buf[k + 1] == 10 && buf[k + 2] == 13 && buf[k + 3] == 10));
    }
}

/// Nothing is complete before its head has ended.
pub proof fn incomplete_without_head(buf: Seq<u8>)
    requires
        !text::contains(buf, head_end_mark()),
    ensures
        !request_complete(buf),
        !response_complete(buf),
{
    text::lemma_contains_is_find(buf, head_end_mark());
}

/// A line of a lowered head that begins with `content-length:` declares the number
/// that stands before the next colon, white space around it aside, up to the largest
/// length that there is. No other line declares a length.
pub proof fn lines_declare_their_number(
    before: Seq<char>,
    n: nat,
    after: Seq<char>,
    rest: Seq<char>,
    other: Seq<char>,
)
    requires
        text::is_blank_text(before),
        text::is_blank_text(after),
    ensures
        n <= usize::MAX ==> line_length(
            "content-length:"@ + before + numbers::decimal(n) + after,
        ) == Some(n as int),
        n > usize::MAX ==> line_length(
            "content-length:"@ + before + numbers::decimal(n) + after,
        ) is None,
        n <= usize::MAX ==> line_length(
            "content-length:"@ + before + numbers::decimal(n) + after + seq![':'] + rest,
        ) == Some(n as int),
        !"content-length:"@.is_prefix_of(other) ==> line_length(other) is None,
{
    let prefix = "content-length:"@;
    let d = numbers::decimal(n);
    let value = before + d + after;
    reveal_strlit("content-length:");
    numbers::lemma_decimal_value(n);
    numbers::numbers_are_read_up_to_their_bound(n, usize::MAX as int);
    assert(numbers::is_digit(d[0]) && numbers::is_digit(d.last()));
    text::trimming_takes_white_space_off(before, d, after);
    assert forall|i: int| 0 <= i < value.len() implies #[trigger] value[i] != ':' by {
        if i < before.len() {
            assert(value[i] == before[i]);
        } else if i < before.len() + d.len() {
            assert(value[i] == d[i - before.len()]);
            assert(numbers::is_digit(d[i - before.len()]));
        } else {
            assert(value[i] == after[i - before.len() - d.len()]);
        }
    }
    let a = prefix + before + d + after;
    assert(a =~= prefix + value);
    assert(a.subrange(0, 15) =~= prefix);
    assert(a.skip(15) =~= value);
    text::lemma_until(value, ':');
    let u = text::until(value, ':');
    if u < value.len() {
        assert(value[u] == ':');
    }
    assert(value.take(u) =~= value);
    let b = a + seq![':'] + rest;
    let tail = value + seq![':'] + rest;
    assert(b.subrange(0, 15) =~= prefix);
    assert(b.skip(15) =~= tail);
    text::lemma_until(tail, ':');
    let w = text::until(tail, ':');
    assert(tail[value.len() as int] == ':');
    if w < value.len() {
        assert(tail[w] == value[w]);
    }
    assert(tail.take(w) =~= value);
    if text::starts_with(other, prefix) {
        assert(other.subrange(0, 15) =~= prefix);
    }
}

/// Of the lines that declare a length the first counts, wherever it stands.
pub proof fn first_declarations_count(lines: Seq<Seq<char>>, i: int)
    ensures
        0 <= i < lines.len() && line_length(lines[i]) is Some && (forall|j: int|
            0 <= j < i ==> line_length(#[trigger] lines[j]) is None) ==> first_length(lines)
            == line_length(lines[i]),
        (forall|j: int| 0 <= j < lines.len() ==> line_length(#[trigger] lines[j]) is None)
            ==> first_length(lines) is None,
    decreases lines.len(),
{
    if lines.len() > 0 {
        let rest = lines.skip(1);
        assert forall|j: int| 0 <= j < rest.len() implies #[trigger] rest[j] == lines[j + 1] by {}
        first_declarations_count(rest, i - 1);
        if i > 0 && i < lines.len() {
            assert(rest[i - 1] == lines[i]);
        }
    }
}

/// A lowered head announces chunks exactly where `transfer-encoding: chunked` stands in
/// it, whatever else does.
pub proof fn chunks_are_announced_in_words(
    before: Seq<char>,
    after: Seq<char>,
    lowered: Seq<char>,
)
    ensures
        announces_chunks(before + "transfer-encoding: chunked"@ + after),
        announces_chunks(lowered) ==> exists|i: int|
            0 <= i && #[trigger] lowered.skip(i).take(26) == "transfer-encoding: chunked"@,
{
    let word = "transfer-encoding: chunked"@;
    reveal_strlit("transfer-encoding: chunked");
    text::what_is_held_stands_inside(before, word, after);
    if announces_chunks(lowered) {
        let i = choose|i: int| text::occurs_at(lowered, word, i);
        assert(lowered.skip(i).take(26) =~= lowered.subrange(i, i + 26));
        assert(lowered.skip(i).take(26) == word);
    }
}

/// A declared length comes before chunks, and chunks before nothing. By a length a
/// message has arrived exactly when so many bytes stand behind the empty line that ends
/// its head; by chunks, when the empty one is there. Else a request has arrived with
/// its head, and a response with a byte of a body, or with its head where its status
/// never has a body.
pub proof fn messages_arrive_as_their_head_says(
    buf: Seq<u8>,
    end: int,
    lowered: Seq<char>,
    parsed: head::HeadView<head::ResponseHeadView>,
)
    ensures
        ({
            let empty_chunk = text::contains(buf, seq![48u8, 13u8, 10u8, 13u8, 10u8]);
            &&& declared_length(lowered) matches Some(n) ==> request_arrived(buf, end, lowered) == (
            buf.len() >= end + 4 + n) && response_arrived(buf, end, lowered, parsed) == (buf.len()
                >= end + 4 + n)
            &&& declared_length(lowered) is None && announces_chunks(lowered) ==> request_arrived(
                buf,
                end,
                lowered,
            ) == empty_chunk && response_arrived(buf, end, lowered, parsed) == empty_chunk
            &&& declared_length(lowered) is None && !announces_chunks(lowered) ==> {
                &&& request_arrived(buf, end, lowered)
                &&& buf.len() > end + 4 ==> response_arrived(buf, end, lowered, parsed)
                &&& buf.len() <= end + 4 ==> response_arrived(buf, end, lowered, parsed) == (
                parsed matches head::HeadView::Complete(h) && h.code matches Some(code) && (code
                    < 200 || code == 204 || code == 304))
            }
        }),
{
}

/// A head of ASCII bytes is judged letter by letter in lower case; one that is no text
/// is judged as an empty one.
pub proof fn heads_are_judged_in_lower_case(head: Seq<u8>)
    ensures
        (forall|i: int| 0 <= i < head.len() ==> #[trigger] head[i] < 128) ==> lowered_head(head)
            == text::ascii_lowercase(headers::ascii_text(head)),
        !vstd::utf8::valid_utf8(head) ==> lowered_head(head).len() == 0,
{
    if forall|i: int| 0 <= i < head.len() ==> #[trigger] head[i] < 128 {
        message::lemma_ascii_is_text(head);
    }
    if !vstd::utf8::valid_utf8(head) {
        assert(vstd::utf8::is_ascii_chars(Seq::<char>::empty()));
    }
}

/// The first place at which something stands is the one that nothing stands before.
proof fn lemma_found_first(buf: Seq<u8>, mark: Seq<u8>, at: int)
    requires
        text::occurs_at(buf, mark, at),
        forall|j: int| 0 <= j < at ==> !#[trigger] text::occurs_at(buf, mark, j),
    ensures
        text::find(buf, mark) == Some(at),
{
    text::lemma_find_from(buf, mark, 0);
    match text::find(buf, mark) {
        Some(k) => {
            if k < at {
                assert(!text::occurs_at(buf, mark, k));
            }
        },
        None => {
            assert(!text::occurs_at(buf, mark, at));
        },
    }
}

/// The first empty line of bytes is the one that no empty line stands before.
pub proof fn lemma_first_empty_line(head: Seq<u8>, short: Seq<u8>, rest: Seq<u8>)
    requires
        short == head + seq![13u8, 10u8, 13u8],
        !text::contains(short, head_end_mark()),
    ensures
        text::find(head + head_end_mark() + rest, head_end_mark()) == Some(head.len() as int),
        (head + head_end_mark() + rest).take(head.len() as int) == head,
{
    let mark = head_end_mark();
    let buf = head + mark + rest;
    let at = head.len() as int;
    assert(text::occurs_at(buf, mark, at)) by {
        assert(buf.subrange(at, at + 4) =~= mark);
    }
    assert forall|j: int| 0 <= j < at implies !#[trigger] text::occurs_at(buf, mark, j) by {
        if text::occurs_at(buf, mark, j) {
            assert(short.subrange(j, j + 4) =~= buf.subrange(j, j + 4));
            assert(text::occurs_at(short, mark, j));
        }
    }
    lemma_found_first(buf, mark, at);
    assert(buf.take(at) =~= head);
}

/// Whether a message has arrived is judged by what stands before its first empty line.
pub proof fn messages_are_judged_by_their_first_empty_line(head: Seq<u8>, rest: Seq<u8>)
    requires
        !text::contains(head + seq![13u8, 10u8, 13u8], seq![13u8, 10u8, 13u8, 10u8]),
    ensures
        ({
            let buf = head + seq![13u8, 10u8, 13u8, 10u8] + rest;
            &&& request_complete(buf) == request_arrived(buf, head.len() as int, lowered_head(head))
            &&& response_complete(buf) == response_arrived(
                buf,
                head.len() as int,
                lowered_head(head),
                head::parsed_response(buf, head::MAX_HEADERS as nat),
            )
        }),
{
    assert(head_end_mark() == seq![13u8, 10u8, 13u8, 10u8]);
    lemma_first_empty_line(head, head + seq![13u8, 10u8, 13u8], rest);
}

} // verus!
