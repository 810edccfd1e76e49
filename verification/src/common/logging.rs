//! What is written to the log about transferred data.

use crate::numbers;
use crate::text;
use vstd::prelude::*;

verus! {

/// How important a log entry is.
#[derive(Debug, Clone, Copy, PartialEq, Eq, Structural)]
pub enum LogLevel {
    Debug,
    Info,
}

/// An entry for the log.
#[derive(Debug)]
pub struct LogRecord {
    pub level: LogLevel,
    pub text: String,
}

impl View for LogRecord {
    type V = (LogLevel, Seq<char>);

    open spec fn view(&self) -> (LogLevel, Seq<char>) {
        (self.level, self.text@)
    }
}

/// The entries of a list.
pub open spec fn entries(v: Seq<LogRecord>) -> Seq<(LogLevel, Seq<char>)> {
    v.map_values(|r: LogRecord| r@)
}

// ---------------------------------------------------------------------------
// Showing bytes
// ---------------------------------------------------------------------------

/// Bytes in hexadecimal, with blanks between.
pub open spec fn hex_dump(data: Seq<u8>) -> Seq<char>
    decreases data.len(),
{
    if data.len() == 0 {
        Seq::empty()
    } else if data.len() == 1 {
        numbers::hex_byte(data[0])
    } else {
        hex_dump(data.drop_last()) + " "@ + numbers::hex_byte(data.last())
    }
}

/// A byte as a character: itself where it is printable, else a dot.
pub open spec fn shown_byte(b: u8) -> char {
    if 32 <= b <= 126 {
        b as char
    } else {
        '.'
    }
}

/// Bytes as characters.
pub open spec fn ascii_dump(data: Seq<u8>) -> Seq<char> {
    data.map_values(|b: u8| shown_byte(b))
}

/// Bytes in decimal, with commas between.
pub open spec fn listed(data: Seq<u8>) -> Seq<char>
    decreases data.len(),
{
    if data.len() == 0 {
        Seq::empty()
    } else if data.len() == 1 {
        numbers::decimal(data[0] as nat)
    } else {
        listed(data.drop_last()) + ", "@ + numbers::decimal(data.last() as nat)
    }
}

fn push_hex_dump(out: &mut String, data: &[u8])
    ensures
        final(out)@ == old(out)@ + hex_dump(data@),
{
    let ghost start = out@;
    let mut i: usize = 0;
    assert(start + hex_dump(data@.take(0)) =~= start);
    while i < data.len()
        invariant
            i <= data@.len(),
            out@ == start + hex_dump(data@.take(i as int)),
        decreases data@.len() - i,
    {
        let ghost before = out@;
        if i > 0 {
            out.append(" ");
        }
        numbers::push_hex(out, data[i]);
        proof {
            let more = data@.take(i + 1);
            assert(more.drop_last() =~= data@.take(i as int));
            assert(more.last() == data@[i as int]);
            if i == 0 {
                assert(before =~= start);
            } else {
                assert(out@ =~= start + hex_dump(more));
            }
        }
        i += 1;
    }
    assert(data@.take(i as int) =~= data@);
}

fn push_ascii_dump(out: &mut String, data: &[u8])
    ensures
        final(out)@ == old(out)@ + ascii_dump(data@),
{
    let ghost start = out@;
    let mut i: usize = 0;
    assert(start + ascii_dump(data@.take(0)) =~= start);
    while i < data.len()
        invariant
            i <= data@.len(),
            out@ == start + ascii_dump(data@.take(i as int)),
        decreases data@.len() - i,
    {
        let b = data[i];
        if b >= 32 && b <= 126 {
            out.push(b as char);
        } else {
            out.push('.');
        }
        assert(ascii_dump(data@.take(i + 1)) =~= ascii_dump(data@.take(i as int)).push(
            shown_byte(b),
        ));
        assert(out@ =~= start + ascii_dump(data@.take(i + 1)));
        i += 1;
    }
    assert(data@.take(i as int) =~= data@);
}

fn push_listed(out: &mut String, data: &[u8])
    ensures
        final(out)@ == old(out)@ + listed(data@),
{
    let ghost start = out@;
    let mut i: usize = 0;
    assert(start + listed(data@.take(0)) =~= start);
    while i < data.len()
        invariant
            i <= data@.len(),
            out@ == start + listed(data@.take(i as int)),
        decreases data@.len() - i,
    {
        let ghost before = out@;
        if i > 0 {
            out.append(", ");
        }
        numbers::push_decimal(out, data[i] as u64);
        proof {
            let more = data@.take(i + 1);
            assert(more.drop_last() =~= data@.take(i as int));
            assert(more.last() == data@[i as int]);
            if i == 0 {
                assert(before =~= start);
            } else {
                assert(out@ =~= start + listed(more));
            }
        }
        i += 1;
    }
    assert(data@.take(i as int) =~= data@);
}

// ---------------------------------------------------------------------------
// Samples
// ---------------------------------------------------------------------------

/// The lesser of two sizes.
pub open spec fn at_most(limit: int, size: int) -> int {
    if size < limit {
        size
    } else {
        limit
    }
}

/// How an entry about some bytes begins.
pub open spec fn sized(direction: Seq<char>, label: Seq<char>, size: int) -> Seq<char> {
    direction + label + numbers::decimal(size as nat)
}

/// The entries for transferred data at a level of detail: the first bytes in
/// two forms at `verbose`, fewer of them in one form at `minimal`, and only
/// the size of large transfers at any other.
pub open spec fn sample_entries(
    direction: Seq<char>,
    data: Seq<u8>,
    size: int,
    detail: Seq<char>,
) -> Seq<(LogLevel, Seq<char>)> {
    if detail == "verbose"@ {
        let shown = data.take(at_most(200, size));
        seq![
            (LogLevel::Info, sized(direction, " data["@, size) + "]: Hex: "@ + hex_dump(shown)),
            (LogLevel::Info, sized(direction, " data["@, size) + "]: ASCII: "@ + ascii_dump(shown)),
        ]
    } else if detail == "minimal"@ {
        if size > 0 {
            let shown = data.take(at_most(50, size));
            seq![
                (
                    LogLevel::Debug,
                    sized(direction, " data preview["@, size) + "]: ["@ + listed(shown) + "]"@,
                ),
            ]
        } else {
            Seq::empty()
        }
    } else if size > 10000 {
        seq![(LogLevel::Debug, sized(direction, " data size: "@, size) + " bytes"@)]
    } else {
        Seq::empty()
    }
}

fn start_entry(direction: &str, label: &str, size: usize) -> (r: String)
    ensures
        r@ == sized(direction@, label@, size as int),
{
    let mut out = direction.to_owned();
    out.append(label);
    numbers::push_decimal(&mut out, size as u64);
    out
}

fn least(limit: usize, size: usize) -> (r: usize)
    ensures
        r == at_most(limit as int, size as int),
{
    if size < limit {
        size
    } else {
        limit
    }
}

/// The entries for transferred data at a level of detail.
pub fn log_data_sample(direction: &str, data: &[u8], size: usize, log_level: &str) -> (r: Vec<
    LogRecord,
>)
    requires
        log_level@ == "verbose"@ ==> at_most(200, size as int) <= data@.len(),
        log_level@ == "minimal"@ ==> at_most(50, size as int) <= data@.len(),
    ensures
        entries(r@) == sample_entries(direction@, data@, size as int, log_level@),
{
    let mut out: Vec<LogRecord> = Vec::new();
    proof {
        reveal_strlit("verbose");
        reveal_strlit("minimal");
        assert("verbose"@[0] != "minimal"@[0]);
    }
    if text::same_text(log_level, "verbose") {
        let shown = vstd::slice::slice_subrange(data, 0, least(200, size));
        assert(shown@ =~= data@.take(at_most(200, size as int)));
        let mut hex = start_entry(direction, " data[", size);
        hex.append("]: Hex: ");
        push_hex_dump(&mut hex, shown);
        out.push(LogRecord { level: LogLevel::Info, text: hex });
        let mut ascii = start_entry(direction, " data[", size);
        ascii.append("]: ASCII: ");
        push_ascii_dump(&mut ascii, shown);
        out.push(LogRecord { level: LogLevel::Info, text: ascii });
    } else if text::same_text(log_level, "minimal") {
        if size > 0 {
            let shown = vstd::slice::slice_subrange(data, 0, least(50, size));
            assert(shown@ =~= data@.take(at_most(50, size as int)));
            let mut preview = start_entry(direction, " data preview[", size);
            preview.append("]: [");
            push_listed(&mut preview, shown);
            preview.append("]");
            out.push(LogRecord { level: LogLevel::Debug, text: preview });
        }
    } else if size > 10000 {
        let mut entry = start_entry(direction, " data size: ", size);
        entry.append(" bytes");
        out.push(LogRecord { level: LogLevel::Debug, text: entry });
    }
    assert(entries(out@) =~= sample_entries(direction@, data@, size as int, log_level@));
    out
}

/// How many of `n` bytes are shown when they are noted at a level of detail: up
/// to a hundred at `verbose` and none at `minimal`. At any other level the bytes
/// are not noted.
pub open spec fn noted_size(level: Seq<char>, n: int) -> Option<int> {
    if level == "verbose"@ {
        Some(at_most(100, n))
    } else if level == "minimal"@ {
        Some(0)
    } else {
        None
    }
}

/// How many of `n` bytes are shown when they are noted at a level of detail;
/// none where they are not noted.
pub fn noted_len(level: &str, n: usize) -> (r: Option<usize>)
    ensures
        match r {
            Some(k) => noted_size(level@, n as int) == Some(k as int) && k <= n,
            None => noted_size(level@, n as int) is None,
        },
{
    if text::same_text(level, "verbose") {
        Some(least(100, n))
    } else if text::same_text(level, "minimal") {
        Some(0)
    } else {
        None
    }
}

// ---------------------------------------------------------------------------
// Previews
// ---------------------------------------------------------------------------

/// The first line of a text; nothing where the text is empty.
pub open spec fn first_line(s: Seq<char>) -> Seq<char> {
    if text::lines(s).len() == 0 {
        Seq::empty()
    } else {
        text::lines(s)[0]
    }
}

/// The first characters of a text, up to a hundred.
pub open spec fn clipped(s: Seq<char>) -> Seq<char> {
    s.take(at_most(100, s.len() as int))
}

/// What is shown of the first bytes of a connection: the beginning of the first
/// line where they are text, else the first of them in hexadecimal. Dots stand
/// for what is not shown.
pub open spec fn preview_of(data: Seq<u8>) -> Seq<char> {
    if vstd::utf8::valid_utf8(data) {
        let shown = clipped(first_line(vstd::utf8::decode_utf8(data)));
        if vstd::utf8::encode_utf8(shown).len() < data.len() {
            shown + "..."@
        } else {
            shown
        }
    } else {
        hex_dump(data.take(at_most(50, data.len() as int))) + "..."@
    }
}

/// What is shown of the first bytes of a connection.
pub fn preview(data: &[u8]) -> (r: String)
    ensures
        r@ == preview_of(data@),
{
    match text::utf8_text(data) {
        Some(s) => {
            let cs = text::chars_of(s);
            let lines = text::split_lines(cs.as_slice());
            let ghost all = text::lines(s@);
            let mut out = if lines.len() == 0 {
                let out = String::new();
                assert(clipped(first_line(s@)) =~= out@);
                out
            } else {
                assert(all[0] == lines@[0]@);
                let end: usize = least(100, lines[0].len());
                let out = text::string_of(
                    vstd::slice::slice_subrange(lines[0].as_slice(), 0, end),
                );
                assert(out@ =~= clipped(first_line(s@)));
                out
            };
            let shown: usize = out.as_str().as_bytes().len();
            if shown < data.len() {
                out.append("...");
            }
            out
        },
        None => {
            let mut out = String::new();
            let shown = vstd::slice::slice_subrange(data, 0, least(50, data.len()));
            assert(shown@ =~= data@.take(at_most(50, data@.len() as int)));
            push_hex_dump(&mut out, shown);
            assert(out@ =~= hex_dump(shown@));
            out.append("...");
            out
        },
    }
}

// ---------------------------------------------------------------------------
// Sizes
// ---------------------------------------------------------------------------

/// The whole number nearest to `n / d`; of two that are equally near, the even
/// one.
pub open spec fn nearest(n: int, d: int) -> int {
    let q = n / d;
    let r = n % d;
    if 2 * r < d || (2 * r == d && q % 2 == 0) {
        q
    } else {
        q + 1
    }
}

/// The numbers below this are held exactly in double precision.
pub const EXACT_BELOW: u64 = 9_007_199_254_740_992;

/// The distance between two numbers of the size of `n` in double precision.
pub open spec fn spacing(n: int) -> int
    decreases n,
{
    if n < EXACT_BELOW {
        1
    } else {
        2 * spacing(n / 2)
    }
}

/// A number as it is held in double precision.
pub open spec fn in_double_precision(n: int) -> int {
    nearest(n, spacing(n)) * spacing(n)
}

/// The units that sizes are shown in.
pub open spec fn unit_size(bytes: int) -> int {
    if bytes < 1_048_576 {
        1024
    } else if bytes < 1_073_741_824 {
        1_048_576
    } else {
        1_073_741_824
    }
}

pub open spec fn unit_name(bytes: int) -> Seq<char> {
    if bytes < 1_048_576 {
        " KB"@
    } else if bytes < 1_073_741_824 {
        " MB"@
    } else {
        " GB"@
    }
}

/// The hundredths of a unit that a size is shown as.
pub open spec fn hundredths(bytes: int) -> int {
    nearest(100 * in_double_precision(bytes), unit_size(bytes))
}

/// Hundredths with two digits after the point.
pub open spec fn with_point(h: int) -> Seq<char> {
    numbers::decimal((h / 100) as nat) + "."@ + seq![
        numbers::digit_char(h % 100 / 10),
        numbers::digit_char(h % 10),
    ]
}

/// A size as it is shown: in bytes below a kilobyte, else in the largest unit
/// that it fills, with two digits after the point.
pub open spec fn size_text(bytes: int) -> Seq<char> {
    if bytes < 1024 {
        numbers::decimal(bytes as nat) + " B"@
    } else {
        with_point(hundredths(bytes)) + unit_name(bytes)
    }
}

fn spacing_of(n: u64) -> (r: u64)
    ensures
        r == spacing(n as int),
        1 <= r <= 4096,
{
    let mut m: u64 = n;
    let mut r: u64 = 1;
    assert(r * spacing(m as int) == spacing(n as int));
    while m >= EXACT_BELOW
        invariant
            r * spacing(m as int) == spacing(n as int),
            r >= 1,
            m * r <= u64::MAX,
        decreases m,
    {
        let ghost rest = spacing(m as int / 2);
        let ghost old_r = r as int;
        proof {
            assert(spacing(m as int) == 2 * rest);
            assert(old_r * (2 * rest) == (old_r * 2) * rest) by (nonlinear_arith);
            assert(r <= 2048) by (nonlinear_arith)
                requires
                    m * r <= 0xffff_ffff_ffff_ffff,
                    m >= 9_007_199_254_740_992,
            ;
            assert((m / 2) * (r * 2) <= m * r) by (nonlinear_arith)
                requires
                    m >= 0,
                    r >= 1,
            ;
        }
        m = m / 2;
        r = r * 2;
    }
    proof {
        assert(spacing(m as int) == 1);
        bounded_spacing(n);
    }
    r
}

proof fn bounded_spacing(n: u64)
    ensures
        1 <= spacing(n as int) <= 4096,
{
    reveal_with_fuel(spacing, 13);
}

fn nearest_of(n: u128, d: u128) -> (r: u128)
    requires
        0 < d <= 0x1_0000_0000,
        n <= 0x100_0000_0000_0000_0000_0000,
    ensures
        r == nearest(n as int, d as int),
        r <= n / d + 1,
{
    let q: u128 = n / d;
    let rest: u128 = n % d;
    assert(q <= n) by (nonlinear_arith)
        requires
            q == n / d,
            d > 0,
    ;
    if 2 * rest < d || (2 * rest == d && q % 2 == 0) {
        q
    } else {
        q + 1
    }
}

fn push_with_point(out: &mut String, h: u128)
    requires
        h / 100 <= u64::MAX,
    ensures
        final(out)@ == old(out)@ + with_point(h as int),
{
    let whole: u64 = (h / 100) as u64;
    let tens: u8 = (h % 100 / 10) as u8;
    let ones: u8 = (h % 10) as u8;
    numbers::push_decimal(out, whole);
    out.append(".");
    out.push((48u8 + tens) as char);
    out.push((48u8 + ones) as char);
    assert(out@ =~= old(out)@ + with_point(h as int));
}

/// Appends a size as it is shown.
fn push_size(out: &mut String, bytes: u64)
    ensures
        final(out)@ == old(out)@ + size_text(bytes as int),
{
    let ghost start = out@;
    if bytes < 1024 {
        numbers::push_decimal(out, bytes);
        out.append(" B");
        assert(out@ =~= start + size_text(bytes as int));
        return;
    }
    let step: u64 = spacing_of(bytes);
    let near: u128 = nearest_of(bytes as u128, step as u128);
    proof {
        let q = bytes as int / step as int;
        assert(near <= q + 1);
        assert(near * step <= bytes + step) by (nonlinear_arith)
            requires
                near <= q + 1,
                q == bytes as int / step as int,
                step >= 1,
        ;
    }
    let held: u128 = near * step as u128;
    let (unit, name): (u64, &str) = if bytes < 1_048_576 {
        (1024, " KB")
    } else if bytes < 1_073_741_824 {
        (1_048_576, " MB")
    } else {
        (1_073_741_824, " GB")
    };
    let h: u128 = nearest_of(100 * held, unit as u128);
    assert(h / 100 <= u64::MAX) by {
        let n = 100 * held as int;
        assert(n / (unit as int) <= n / 1024) by (nonlinear_arith)
            requires
                unit >= 1024,
                n >= 0,
        ;
    }
    push_with_point(out, h);
    out.append(name);
    assert(out@ =~= start + size_text(bytes as int));
}

/// The summary of a transfer.
pub open spec fn summary_text(session_id: Seq<char>, direction: Seq<char>, bytes: int) -> Seq<
    char,
> {
    "Session "@ + session_id + ": "@ + direction + " transferred "@ + size_text(bytes)
}

/// The summary of a transfer.
pub fn log_transfer_summary(session_id: &str, direction: &str, bytes: u64) -> (r: String)
    ensures
        r@ == summary_text(session_id@, direction@, bytes as int),
{
    let mut out = "Session ".to_owned();
    out.append(session_id);
    out.append(": ");
    out.append(direction);
    out.append(" transferred ");
    push_size(&mut out, bytes);
    out
}

// ---------------------------------------------------------------------------
// Laws
// ---------------------------------------------------------------------------

/// Sizes below two to the power of fifty-three are held exactly.
pub proof fn small_sizes_are_exact(bytes: int)
    requires
        0 <= bytes < EXACT_BELOW,
    ensures
        in_double_precision(bytes) == bytes,
{
}

/// What is shown is off by no more than half a hundredth of the unit.
pub proof fn shown_size_is_near(bytes: int)
    requires
        0 <= bytes < EXACT_BELOW,
    ensures
        -unit_size(bytes) <= 2 * (hundredths(bytes) * unit_size(bytes) - 100 * bytes)
            <= unit_size(bytes),
{
    let n = 100 * bytes;
    let d = unit_size(bytes);
    let q = n / d;
    let r = n % d;
    assert(n == q * d + r && 0 <= r < d) by (nonlinear_arith)
        requires
            q == n / d,
            r == n % d,
            d > 0,
    ;
    assert((q + 1) * d == q * d + d) by (nonlinear_arith);
}

/// In hexadecimal every byte is two digits, in its place, with a blank between two
/// bytes.
pub proof fn every_byte_is_dumped(data: Seq<u8>, i: int)
    requires
        0 <= i < data.len(),
    ensures
        hex_dump(data).len() == 3 * data.len() - 1,
        hex_dump(data)[3 * i] == numbers::hex_byte(data[i])[0],
        hex_dump(data)[3 * i + 1] == numbers::hex_byte(data[i])[1],
        i > 0 ==> hex_dump(data)[3 * i - 1] == ' ',
    decreases data.len(),
{
    reveal_strlit(" ");
    numbers::hex_digits_write_their_byte(data.last());
    if data.len() > 1 {
        let before = data.drop_last();
        let n = before.len() as int;
        if i < n {
            every_byte_is_dumped(before, i);
        } else {
            every_byte_is_dumped(before, 0);
        }
    }
}

/// As characters every byte is one, in its place: itself where it is printable, else
/// a dot.
pub proof fn every_byte_is_shown(data: Seq<u8>, i: int)
    requires
        0 <= i < data.len(),
    ensures
        ascii_dump(data).len() == data.len(),
        ' ' <= data[i] as char <= '~' ==> ascii_dump(data)[i] == data[i] as char,
        !(' ' <= data[i] as char <= '~') ==> ascii_dump(data)[i] == '.',
{
}

/// In a list every byte is its decimal number, with a comma and a blank between two.
pub proof fn every_byte_is_listed(data: Seq<u8>, b: u8)
    ensures
        listed(Seq::empty()) == Seq::<char>::empty(),
        listed(seq![b]) == numbers::decimal(b as nat),
        data.len() > 0 ==> listed(data.push(b)) == listed(data) + seq![',', ' ']
            + numbers::decimal(b as nat),
{
    reveal_strlit(", ");
    assert(", "@ =~= seq![',', ' ']);
    assert(data.push(b).drop_last() =~= data);
}

/// At `verbose` up to two hundred bytes are shown in both forms, whatever the size; at
/// `minimal` up to fifty are listed, unless there are none; at any other level only the
/// size is noted, and only above ten thousand bytes. Every entry tells the direction
/// and the size.
pub proof fn samples_follow_the_level(
    direction: Seq<char>,
    data: Seq<u8>,
    n: nat,
    detail: Seq<char>,
)
    ensures
        ({
            let size = numbers::decimal(n);
            let long = data.take(
                if n <= 200 {
                    n as int
                } else {
                    200
                },
            );
            let short = data.take(
                if n <= 50 {
                    n as int
                } else {
                    50
                },
            );
            let entries = sample_entries(direction, data, n as int, detail);
            &&& detail == "verbose"@ ==> entries == seq![
                (LogLevel::Info, direction + " data["@ + size + "]: Hex: "@ + hex_dump(long)),
                (LogLevel::Info, direction + " data["@ + size + "]: ASCII: "@ + ascii_dump(long)),
            ]
            &&& detail == "minimal"@ && n > 0 ==> entries == seq![
                (
                    LogLevel::Debug,
                    direction + " data preview["@ + size + "]: ["@ + listed(short) + "]"@,
                ),
            ]
            &&& detail == "minimal"@ && n == 0 ==> entries.len() == 0
            &&& detail != "verbose"@ && detail != "minimal"@ && n > 10_000 ==> entries == seq![
                (LogLevel::Debug, direction + " data size: "@ + size + " bytes"@),
            ]
            &&& detail != "verbose"@ && detail != "minimal"@ && n <= 10_000 ==> entries.len() == 0
        }),
{
    reveal_strlit("verbose");
    reveal_strlit("minimal");
    assert("verbose"@[0] != "minimal"@[0]);
}

/// When bytes are noted, up to a hundred of them are shown at `verbose` and none at
/// `minimal`; at any other level they are not noted.
pub proof fn notes_follow_the_level(level: Seq<char>, n: int)
    requires
        0 <= n,
    ensures
        level == "verbose"@ && n <= 100 ==> noted_size(level, n) == Some(n),
        level == "verbose"@ && n > 100 ==> noted_size(level, n) == Some(100int),
        level == "minimal"@ ==> noted_size(level, n) == Some(0int),
        level != "verbose"@ && level != "minimal"@ ==> noted_size(level, n) is None,
{
    reveal_strlit("verbose");
    reveal_strlit("minimal");
    assert("verbose"@[0] != "minimal"@[0]);
}

/// A preview of text is its first line, up to a hundred characters of it, and dots
/// where there is more; bytes that are no text are shown in hexadecimal, up to fifty
/// of them, and dots.
pub proof fn previews_show_the_beginning(line: Seq<char>, rest: Seq<char>, data: Seq<u8>)
    requires
        line.len() > 0,
        forall|i: int| 0 <= i < line.len() ==> #[trigger] line[i] != '\n',
    ensures
        line.len() <= 100 ==> preview_of(vstd::utf8::encode_utf8(line)) == line,
        line.len() <= 100 && line.last() != '\r' ==> preview_of(
            vstd::utf8::encode_utf8(line + seq!['\n'] + rest),
        ) == line + seq!['.', '.', '.'],
        line.len() <= 101 && line.last() == '\r' ==> preview_of(
            vstd::utf8::encode_utf8(line + seq!['\n'] + rest),
        ) == line.drop_last() + seq!['.', '.', '.'],
        line.len() > 100 ==> preview_of(vstd::utf8::encode_utf8(line)) == line.take(100)
            + seq!['.', '.', '.'],
        !vstd::utf8::valid_utf8(data) && data.len() <= 50 ==> preview_of(data) == hex_dump(data)
            + seq!['.', '.', '.'],
        !vstd::utf8::valid_utf8(data) && data.len() > 50 ==> preview_of(data) == hex_dump(
            data.take(50),
        ) + seq!['.', '.', '.'],
{
    reveal_strlit("...");
    assert("..."@ =~= seq!['.', '.', '.']);
    let all = line + seq!['\n'] + rest;
    vstd::utf8::encode_utf8_valid_utf8(line);
    vstd::utf8::encode_utf8_decode_utf8(line);
    vstd::utf8::encode_utf8_valid_utf8(all);
    vstd::utf8::encode_utf8_decode_utf8(all);
    text::lines_end_at_line_feeds(line, rest);
    assert(data.take(data.len() as int) =~= data);
    assert(line.take(line.len() as int) =~= line);
    assert(line.drop_last().take(line.len() - 1) =~= line.drop_last());
    lemma_longer_text(line, seq!['\n'] + rest);
    assert(line + (seq!['\n'] + rest) =~= all);
    lemma_longer_text(line.drop_last(), seq![line.last()] + seq!['\n'] + rest);
    assert(line.drop_last() + (seq![line.last()] + seq!['\n'] + rest) =~= all);
    if line.len() > 100 {
        lemma_longer_text(line.take(100), line.skip(100));
        assert(line.take(100) + line.skip(100) =~= line);
    }
}

/// A text with more behind it takes more bytes.
proof fn lemma_longer_text(s: Seq<char>, more: Seq<char>)
    requires
        more.len() > 0,
    ensures
        vstd::utf8::encode_utf8(s).len() < vstd::utf8::encode_utf8(s + more).len(),
    decreases s.len(),
{
    if s.len() == 0 {
        assert(s + more =~= more);
    } else {
        lemma_longer_text(s.drop_first(), more);
        assert((s + more).drop_first() =~= s.drop_first() + more);
        assert((s + more)[0] == s[0]);
    }
}

/// Below a kilobyte a size is shown in bytes. Whole numbers of kilobytes, megabytes and
/// gigabytes are shown as such, each up to the next larger unit.
pub proof fn whole_units_are_shown(k: int)
    ensures
        0 <= k < 1024 ==> size_text(k) == numbers::decimal(k as nat) + " B"@,
        0 < k < 1024 ==> size_text(1024 * k) == numbers::decimal(k as nat) + ".00 KB"@,
        0 < k < 1024 ==> size_text(1_048_576 * k) == numbers::decimal(k as nat) + ".00 MB"@,
        0 < k < 8_388_608 ==> size_text(1_073_741_824 * k) == numbers::decimal(k as nat) + ".00 GB"@,
{
    reveal_strlit(".");
    reveal_strlit(" KB");
    reveal_strlit(" MB");
    reveal_strlit(" GB");
    reveal_strlit(".00 KB");
    reveal_strlit(".00 MB");
    reveal_strlit(".00 GB");
    let d = numbers::decimal(k as nat);
    if k > 0 {
        lemma_whole(k, 1024);
        lemma_whole(k, 1_048_576);
        lemma_whole(k, 1_073_741_824);
        assert(with_point(100 * k) =~= d + seq!['.', '0', '0']);
        assert(d + seq!['.', '0', '0'] + " KB"@ =~= d + ".00 KB"@);
        assert(d + seq!['.', '0', '0'] + " MB"@ =~= d + ".00 MB"@);
        assert(d + seq!['.', '0', '0'] + " GB"@ =~= d + ".00 GB"@);
        if k < 1024 {
            small_sizes_are_exact(1024 * k);
            assert(unit_size(1024 * k) == 1024);
            assert(hundredths(1024 * k) == 100 * k);
            small_sizes_are_exact(1_048_576 * k);
            assert(unit_size(1_048_576 * k) == 1_048_576);
            assert(hundredths(1_048_576 * k) == 100 * k);
        }
        if k < 8_388_608 {
            let bytes = 1_073_741_824 * k;
            assert(bytes < EXACT_BELOW);
            small_sizes_are_exact(bytes);
            assert(unit_size(bytes) == 1_073_741_824);
            assert(hundredths(bytes) == 100 * k);
            assert(size_text(bytes) == with_point(100 * k) + " GB"@);
        }
    }
}

/// A whole number of units is shown as that many hundreds of hundredths.
proof fn lemma_whole(k: int, unit: int)
    requires
        0 < k,
        unit > 0,
    ensures
        nearest(100 * (unit * k), unit) == 100 * k,
{
    let n = 100 * (unit * k);
    assert(n == (100 * k) * unit) by (nonlinear_arith)
        requires
            n == 100 * (unit * k),
    ;
    assert(n / unit == 100 * k && n % unit == 0) by (nonlinear_arith)
        requires
            n == (100 * k) * unit,
            unit > 0,
    ;
}

/// The nearest whole number is off by no more than a half, and where it is off by just
/// that it is even.
pub proof fn nearest_is_off_by_a_half(n: int, d: int)
    requires
        d > 0,
    ensures
        -d <= 2 * (nearest(n, d) * d - n) <= d,
        2 * (nearest(n, d) * d - n) == d || 2 * (nearest(n, d) * d - n) == -d ==> nearest(n, d) % 2
            == 0,
{
    let q = n / d;
    let r = n % d;
    assert(n == q * d + r && 0 <= r < d) by (nonlinear_arith)
        requires
            q == n / d,
            r == n % d,
            d > 0,
    ;
    assert((q + 1) * d == q * d + d) by (nonlinear_arith);
}

/// In double precision numbers lie one apart up to two to the power of fifty-three, and
/// twice as far apart for every further power of two.
pub proof fn precision_halves_with_the_size(n: int)
    requires
        0 <= n,
    ensures
        n < 9_007_199_254_740_992 ==> spacing(n) == 1,
        n >= 9_007_199_254_740_992 ==> spacing(n) == 2 * spacing(n / 2),
        spacing(n) >= 1,
        in_double_precision(n) % spacing(n) == 0,
        -spacing(n) <= 2 * (in_double_precision(n) - n) <= spacing(n),
    decreases n,
{
    if n >= 9_007_199_254_740_992 {
        precision_halves_with_the_size(n / 2);
    }
    let s = spacing(n);
    nearest_is_off_by_a_half(n, s);
    assert((nearest(n, s) * s) % s == 0) by (nonlinear_arith)
        requires
            s >= 1,
    ;
}

/// A size is shown in the largest unit that it fills, with two digits after the point,
/// and is off by no more than half a hundredth of that unit.
pub proof fn sizes_are_shown_in_their_unit(bytes: int)
    requires
        1024 <= bytes,
    ensures
        size_text(bytes) == with_point(hundredths(bytes)) + unit_name(bytes),
        bytes < 1_048_576 ==> unit_size(bytes) == 1024 && unit_name(bytes) == " KB"@,
        1_048_576 <= bytes < 1_073_741_824 ==> unit_size(bytes) == 1_048_576 && unit_name(bytes)
            == " MB"@,
        bytes >= 1_073_741_824 ==> unit_size(bytes) == 1_073_741_824 && unit_name(bytes) == " GB"@,
        -unit_size(bytes) <= 2 * (hundredths(bytes) * unit_size(bytes) - 100 * in_double_precision(
            bytes,
        )) <= unit_size(bytes),
{
    nearest_is_off_by_a_half(100 * in_double_precision(bytes), unit_size(bytes));
}

/// Hundredths are written as the whole number, a point and the two digits of the rest.
pub proof fn hundredths_are_written_with_a_point(whole: nat, tens: int, ones: int)
    requires
        0 <= tens <= 9,
        0 <= ones <= 9,
    ensures
        ({
            let s = with_point(100 * whole + 10 * tens + ones);
            let d = numbers::decimal(whole);
            &&& s.len() == d.len() + 3
            &&& s.take(d.len() as int) == d
            &&& s[d.len() as int] == '.'
            &&& s[d.len() as int + 1] as int == 48 + tens
            &&& s[d.len() as int + 2] as int == 48 + ones
        }),
{
    reveal_strlit(".");
    let h = 100 * whole + 10 * tens + ones;
    assert(h / 100 == whole && h % 100 == 10 * tens + ones && h % 10 == ones);
    let d = numbers::decimal(whole);
    assert(with_point(h).take(d.len() as int) =~= d);
}

/// A summary tells the session, the direction and the size, in this order.
pub proof fn summaries_tell_the_size(
    session_id: Seq<char>,
    direction: Seq<char>,
    bytes: int,
)
    ensures
        summary_text(session_id, direction, bytes) == "Session "@ + session_id + ": "@ + direction
            + " transferred "@ + size_text(bytes),
{
}

/// Of text that begins with a line feed only dots are shown, and of nothing nothing.
pub proof fn empty_lines_show_nothing(rest: Seq<char>)
    ensures
        preview_of(vstd::utf8::encode_utf8(seq!['\n'] + rest)) == seq!['.', '.', '.'],
        preview_of(Seq::empty()) == Seq::<char>::empty(),
{
    reveal_strlit("...");
    let none = Seq::<char>::empty();
    let all = seq!['\n'] + rest;
    assert("..."@ =~= seq!['.', '.', '.']);
    text::lines_end_at_line_feeds(none, rest);
    assert(none + seq!['\n'] + rest =~= all);
    vstd::utf8::encode_utf8_valid_utf8(all);
    vstd::utf8::encode_utf8_decode_utf8(all);
    vstd::utf8::encode_utf8_valid_utf8(none);
    vstd::utf8::encode_utf8_decode_utf8(none);
    assert(vstd::utf8::encode_utf8(none) =~= Seq::<u8>::empty());
    lemma_longer_text(none, all);
    assert(none + all =~= all);
    assert(none.take(0) =~= none);
    assert(none + "..."@ =~= seq!['.', '.', '.']);
}

} // verus!
