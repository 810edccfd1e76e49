//! The lines that client and server exchange.
//!
//! A client registers with `REGISTER`, the server announces a visitor with
//! `READY` and `CONNECT`, and the client calls back with `CALLBACK`.

use crate::numbers;
use crate::text;
use vstd::prelude::*;

verus! {

// ---------------------------------------------------------------------------
// Splitting what was joined
// ---------------------------------------------------------------------------

/// Text that is one word: it has characters, none of them white space.
pub open spec fn is_word(s: Seq<char>) -> bool {
    s.len() > 0 && forall|i: int| 0 <= i < s.len() ==> !text::is_space(#[trigger] s[i])
}

/// Text that is empty or begins with white space.
pub open spec fn is_apart(s: Seq<char>) -> bool {
    s.len() == 0 || text::is_space(s[0])
}

proof fn lemma_word_len_of_word(w: Seq<char>, rest: Seq<char>)
    requires
        forall|i: int| 0 <= i < w.len() ==> !text::is_space(#[trigger] w[i]),
        is_apart(rest),
    ensures
        text::word_len(w + rest) == w.len(),
    decreases w.len(),
{
    if w.len() == 0 {
        assert(w + rest =~= rest);
    } else {
        assert((w + rest)[0] == w[0]);
        assert((w + rest).skip(1) =~= w.skip(1) + rest);
        assert forall|i: int| 0 <= i < w.skip(1).len() implies !text::is_space(
            #[trigger] w.skip(1)[i],
        ) by {
            assert(w.skip(1)[i] == w[i + 1]);
        }
        lemma_word_len_of_word(w.skip(1), rest);
    }
}

/// A word before something apart from it is split off.
proof fn lemma_words_front(w: Seq<char>, rest: Seq<char>)
    requires
        is_word(w),
        is_apart(rest),
    ensures
        text::words(w + rest) == seq![w] + text::words(rest),
{
    lemma_word_len_of_word(w, rest);
    assert((w + rest)[0] == w[0]);
    assert(text::trim_start(w + rest) == w + rest);
    assert((w + rest).take(w.len() as int) =~= w);
    assert((w + rest).skip(w.len() as int) =~= rest);
}

/// White space in front does not matter.
proof fn lemma_words_space(c: char, rest: Seq<char>)
    requires
        text::is_space(c),
    ensures
        text::words(seq![c] + rest) == text::words(rest),
{
    assert((seq![c] + rest).skip(1) =~= rest);
    assert(text::trim_start(seq![c] + rest) == text::trim_start(rest));
}

proof fn lemma_words_empty()
    ensures
        text::words(Seq::<char>::empty()) == Seq::<Seq<char>>::empty(),
{
    assert(text::trim_start(Seq::<char>::empty()) =~= Seq::<char>::empty());
}

/// A number written in decimal is one word.
proof fn lemma_decimal_is_word(n: nat)
    ensures
        is_word(numbers::decimal(n)),
{
    numbers::lemma_decimal_no_space(n as int);
    assert(numbers::signed_decimal(n as int) == numbers::decimal(n));
}

// ---------------------------------------------------------------------------
// REGISTER
// ---------------------------------------------------------------------------

/// The registration of a backend port under a public port.
pub open spec fn register_line(backend_port: u16, public_port: u16) -> Seq<char> {
    "REGISTER "@ + numbers::decimal(backend_port as nat) + " "@ + numbers::decimal(
        public_port as nat,
    ) + "\n"@
}

/// Writes a registration.
pub fn register_message(backend_port: u16, public_port: u16) -> (r: String)
    ensures
        r@ == register_line(backend_port, public_port),
{
    let mut out = "REGISTER ".to_owned();
    numbers::push_decimal(&mut out, backend_port as u64);
    out.append(" ");
    numbers::push_decimal(&mut out, public_port as u64);
    out.append("\n");
    out
}

/// Why a registration is refused.
#[derive(Debug, Clone, Copy, PartialEq, Eq, Structural)]
pub enum RegisterError {
    InvalidCommand,
    InvalidBackendPort,
    InvalidPublicPort,
    PublicPortInUse,
}

impl RegisterError {
    /// What the client is told.
    pub open spec fn reply_text(self) -> Seq<char> {
        match self {
            RegisterError::InvalidCommand => "ERROR: Invalid command\n"@,
            RegisterError::InvalidBackendPort => "ERROR: Invalid backend port\n"@,
            RegisterError::InvalidPublicPort => "ERROR: Invalid public port\n"@,
            RegisterError::PublicPortInUse => "ERROR: Public port in use\n"@,
        }
    }

    /// What the client is told.
    pub fn reply(self) -> (r: &'static str)
        ensures
            r@ == self.reply_text(),
    {
        match self {
            RegisterError::InvalidCommand => "ERROR: Invalid command\n",
            RegisterError::InvalidBackendPort => "ERROR: Invalid backend port\n",
            RegisterError::InvalidPublicPort => "ERROR: Invalid public port\n",
            RegisterError::PublicPortInUse => "ERROR: Public port in use\n",
        }
    }
}

/// The port that a word names.
pub open spec fn port_of(word: Seq<char>) -> Option<int> {
    numbers::parse_unsigned(word, u16::MAX as int)
}

/// What a registration line says: three words, the first of them `REGISTER`,
/// the others ports.
pub open spec fn register_request(line: Seq<char>) -> Result<(int, int), RegisterError> {
    let parts = text::words(line);
    if parts.len() != 3 || parts[0] != "REGISTER"@ {
        Err(RegisterError::InvalidCommand)
    } else if port_of(parts[1]) is None {
        Err(RegisterError::InvalidBackendPort)
    } else if port_of(parts[2]) is None {
        Err(RegisterError::InvalidPublicPort)
    } else {
        Ok((port_of(parts[1])->Some_0, port_of(parts[2])->Some_0))
    }
}

fn parse_port(word: &str) -> (r: Option<u16>)
    ensures
        match r {
            Some(n) => port_of(word@) == Some(n as int),
            None => port_of(word@) is None,
        },
{
    let cs = text::chars_of(word);
    match numbers::parse_number(cs.as_slice(), u16::MAX as u64) {
        Some(n) => Some(n as u16),
        None => None,
    }
}

/// Reads a registration line.
pub fn parse_register(line: &str) -> (r: Result<(u16, u16), RegisterError>)
    ensures
        match r {
            Ok((b, p)) => register_request(line@) == Ok::<(int, int), RegisterError>(
                (b as int, p as int),
            ),
            Err(e) => register_request(line@) == Err::<(int, int), RegisterError>(e),
        },
{
    let cs = text::chars_of(line);
    let parts = text::split_words(cs.as_slice());
    let ghost words = text::words(line@);
    assert(parts@.len() == words.len());
    if parts.len() != 3 {
        return Err(RegisterError::InvalidCommand);
    }
    assert(words[0] == parts@[0]@ && words[1] == parts@[1]@ && words[2] == parts@[2]@);
    if !text::same_text(parts[0].as_str(), "REGISTER") {
        return Err(RegisterError::InvalidCommand);
    }
    let backend_port = match parse_port(parts[1].as_str()) {
        Some(p) => p,
        None => {
            return Err(RegisterError::InvalidBackendPort);
        },
    };
    match parse_port(parts[2].as_str()) {
        Some(p) => Ok((backend_port, p)),
        None => Err(RegisterError::InvalidPublicPort),
    }
}

/// The ports that a registration names are ports.
pub proof fn lemma_ports_fit(line: Seq<char>)
    ensures
        register_request(line) matches Ok((b, p)) ==> 0 <= b <= u16::MAX && 0 <= p <= u16::MAX,
{
    let parts = text::words(line);
    if register_request(line) is Ok {
        numbers::lemma_value_nonnegative(numbers::after_plus(parts[1]));
        numbers::lemma_value_nonnegative(numbers::after_plus(parts[2]));
    }
}

/// The server reads from a registration the ports that the client wrote.
pub proof fn registration_round_trip(backend_port: u16, public_port: u16)
    ensures
        register_request(register_line(backend_port, public_port)) == Ok::<
            (int, int),
            RegisterError,
        >((backend_port as int, public_port as int)),
{
    let b = numbers::decimal(backend_port as nat);
    let p = numbers::decimal(public_port as nat);
    lemma_decimal_is_word(backend_port as nat);
    lemma_decimal_is_word(public_port as nat);
    numbers::lemma_parse_decimal(backend_port as nat, u16::MAX as int);
    numbers::lemma_parse_decimal(public_port as nat, u16::MAX as int);
    reveal_strlit("REGISTER");
    reveal_strlit("REGISTER ");
    reveal_strlit(" ");
    reveal_strlit("\n");
    let none = Seq::<char>::empty();
    let tail = seq!['\n'] + none;
    let public = seq![' '] + (p + tail);
    let backend = seq![' '] + (b + public);
    lemma_words_empty();
    lemma_words_space('\n', none);
    lemma_words_front(p, tail);
    lemma_words_space(' ', p + tail);
    lemma_words_front(b, public);
    lemma_words_space(' ', b + public);
    lemma_words_front("REGISTER"@, backend);
    assert(register_line(backend_port, public_port) =~= "REGISTER"@ + backend);
    let words = text::words(register_line(backend_port, public_port));
    assert(words =~= seq!["REGISTER"@, b, p]);
}

/// Any three words of which the first is `REGISTER` and the others are numbers
/// up to 65535, however they are set apart, register these ports.
pub proof fn registrations_are_three_words(line: Seq<char>, backend_port: nat, public_port: nat)
    requires
        text::words(line) == seq![
            "REGISTER"@,
            numbers::decimal(backend_port),
            numbers::decimal(public_port),
        ],
    ensures
        backend_port <= 65535 && public_port <= 65535 ==> register_request(line) == Ok::<
            (int, int),
            RegisterError,
        >((backend_port as int, public_port as int)),
        backend_port > 65535 ==> register_request(line) == Err::<(int, int), RegisterError>(
            RegisterError::InvalidBackendPort,
        ),
        backend_port <= 65535 && public_port > 65535 ==> register_request(line) == Err::<
            (int, int),
            RegisterError,
        >(RegisterError::InvalidPublicPort),
{
    numbers::numbers_are_read_up_to_their_bound(backend_port, 65535);
    numbers::numbers_are_read_up_to_their_bound(public_port, 65535);
}

/// A number above 65535 is no port.
pub proof fn oversized_ports_are_refused(line: Seq<char>)
    ensures
        forall|n: nat|
            n > 65535 && text::words(line).len() == 3 && text::words(line)[0] == "REGISTER"@
                && text::words(line)[1] == #[trigger] numbers::decimal(n) ==> register_request(line)
                == Err::<(int, int), RegisterError>(RegisterError::InvalidBackendPort),
{
    assert forall|n: nat|
        n > 65535 && text::words(line).len() == 3 && text::words(line)[0] == "REGISTER"@
            && text::words(line)[1] == #[trigger] numbers::decimal(n) implies register_request(line)
        == Err::<(int, int), RegisterError>(RegisterError::InvalidBackendPort) by {
        numbers::numbers_are_read_up_to_their_bound(n, 65535);
    }
}

/// Only three words make a registration, and only where the first of them is
/// `REGISTER` and the other two can be read as numbers.
pub proof fn other_lines_do_not_register(line: Seq<char>)
    ensures
        text::words(line).len() != 3 || text::words(line)[0] != "REGISTER"@ ==> register_request(
            line,
        ) == Err::<(int, int), RegisterError>(RegisterError::InvalidCommand),
        register_request(line) is Ok ==> text::words(line).len() == 3 && text::words(line)[0]
            == "REGISTER"@,
{
}

// ---------------------------------------------------------------------------
// READY and CONNECT
// ---------------------------------------------------------------------------

/// The line that announces a visitor.
pub open spec fn ready_line() -> Seq<char> {
    "READY\n"@
}

/// The line that announces a visitor.
pub fn ready_message() -> (r: &'static str)
    ensures
        r@ == "READY\n"@,
        r@ == ready_line(),
{
    "READY\n"
}

/// A line says that a visitor is there.
pub open spec fn announces_visitor(line: Seq<char>) -> bool {
    text::trim(line) == "READY"@
}

/// Whether a line says that a visitor is there.
pub fn is_ready(line: &str) -> (r: bool)
    ensures
        r == announces_visitor(line@),
{
    let cs = text::chars_of(line);
    let trimmed = text::trim_chars(cs.as_slice());
    let ready = text::chars_of("READY");
    text::same_slice(trimmed.as_slice(), ready.as_slice())
}

/// The request to call back for a handshake.
pub open spec fn connect_line(id: Seq<char>) -> Seq<char> {
    "CONNECT "@ + id + "\n"@
}

/// Writes the request to call back for a handshake.
pub fn connect_message(id: &str) -> (r: String)
    ensures
        r@ == connect_line(id@),
{
    let mut out = "CONNECT ".to_owned();
    out.append(id);
    out.append("\n");
    out
}

/// What follows the announcement of a visitor.
#[derive(Debug)]
pub enum ConnectLine {
    /// A call back is wanted for this handshake.
    Handshake(String),
    /// A request to call back that names no handshake.
    NoHandshake,
    /// The server reports an error.
    ServerError,
    /// Anything else.
    Unexpected,
}

/// What a `ConnectLine` holds.
pub enum ConnectLineView {
    Handshake(Seq<char>),
    NoHandshake,
    ServerError,
    Unexpected,
}

impl View for ConnectLine {
    type V = ConnectLineView;

    open spec fn view(&self) -> ConnectLineView {
        match self {
            ConnectLine::Handshake(id) => ConnectLineView::Handshake(id@),
            ConnectLine::NoHandshake => ConnectLineView::NoHandshake,
            ConnectLine::ServerError => ConnectLineView::ServerError,
            ConnectLine::Unexpected => ConnectLineView::Unexpected,
        }
    }
}

/// What the line after the announcement says.
pub open spec fn connect_request(line: Seq<char>) -> ConnectLineView {
    let t = text::trim(line);
    if text::starts_with(t, "CONNECT"@) {
        if text::words(t).len() >= 2 {
            ConnectLineView::Handshake(text::words(t)[1])
        } else {
            ConnectLineView::NoHandshake
        }
    } else if text::starts_with(t, "ERROR:"@) {
        ConnectLineView::ServerError
    } else {
        ConnectLineView::Unexpected
    }
}

/// Reads the line after the announcement.
pub fn parse_connect(line: &str) -> (r: ConnectLine)
    ensures
        r@ == connect_request(line@),
{
    let cs = text::chars_of(line);
    let trimmed = text::trim_chars(cs.as_slice());
    let connect = text::chars_of("CONNECT");
    let error = text::chars_of("ERROR:");
    if text::starts_with_slice(trimmed.as_slice(), connect.as_slice()) {
        let mut parts = text::split_words(trimmed.as_slice());
        let ghost words = text::words(trimmed@);
        assert(parts@.len() == words.len());
        if parts.len() >= 2 {
            assert(words[1] == parts@[1]@);
            ConnectLine::Handshake(parts.swap_remove(1))
        } else {
            ConnectLine::NoHandshake
        }
    } else if text::starts_with_slice(trimmed.as_slice(), error.as_slice()) {
        ConnectLine::ServerError
    } else {
        ConnectLine::Unexpected
    }
}

proof fn lemma_trim_line(s: Seq<char>)
    requires
        s.len() > 0,
        !text::is_space(s[0]),
        !text::is_space(s.last()),
    ensures
        text::trim(s + seq!['\n']) == s,
        text::trim(s) == s,
{
    let line = s + seq!['\n'];
    assert(line[0] == s[0]);
    assert(text::trim_start(line) == line);
    assert(line.last() == '\n');
    assert(line.drop_last() =~= s);
    assert(text::trim_end(line) == text::trim_end(s));
}

/// The announcement of a visitor is understood.
pub proof fn ready_is_understood()
    ensures
        announces_visitor("READY\n"@),
{
    reveal_strlit("READY\n");
    reveal_strlit("READY");
    lemma_trim_line("READY"@);
    assert("READY\n"@ =~= "READY"@ + seq!['\n']);
}

/// A line announces a visitor exactly where it is the word `READY`, whatever
/// white space is around it.
pub proof fn announcements_are_the_word_ready(before: Seq<char>, word: Seq<char>, after: Seq<char>)
    requires
        text::is_blank_text(before),
        text::is_blank_text(after),
        is_word(word),
    ensures
        announces_visitor(before + word + after) == (word == "READY"@),
        !announces_visitor(before),
{
    text::trimming_takes_white_space_off(before, word, after);
    text::trimming_takes_white_space_off(before, Seq::empty(), Seq::empty());
    assert(before + Seq::<char>::empty() + Seq::<char>::empty() =~= before);
    reveal_strlit("READY");
    assert("READY"@.len() == 5);
}

/// A line that reports an error asks for no call back, nor does any other line
/// that does not begin with `CONNECT`.
pub proof fn other_lines_ask_for_nothing(line: Seq<char>)
    ensures
        !"CONNECT"@.is_prefix_of(text::trim(line)) ==> !(connect_request(line) is Handshake) && !(
        connect_request(line) is NoHandshake),
        "ERROR:"@.is_prefix_of(text::trim(line)) ==> connect_request(line)
            == ConnectLineView::ServerError,
        connect_request(line) is ServerError ==> "ERROR:"@.is_prefix_of(text::trim(line)),
{
    let t = text::trim(line);
    reveal_strlit("CONNECT");
    reveal_strlit("ERROR:");
    if "ERROR:"@.is_prefix_of(t) {
        assert(t.subrange(0, 6) =~= "ERROR:"@);
        assert(t.subrange(0, 6)[0] == 'E');
        if text::starts_with(t, "CONNECT"@) {
            assert(t.subrange(0, 7)[0] == 'C');
        }
    }
    if text::starts_with(t, "CONNECT"@) {
        assert(t.subrange(0, 7) == "CONNECT"@);
    }
    if text::starts_with(t, "ERROR:"@) {
        assert(t.subrange(0, 6) == "ERROR:"@);
    }
}

/// The client reads from a request to call back the handshake that the server
/// wrote.
pub proof fn connect_round_trip(id: Seq<char>)
    requires
        is_word(id),
    ensures
        connect_request(connect_line(id)) == ConnectLineView::Handshake(id),
{
    reveal_strlit("CONNECT");
    reveal_strlit("CONNECT ");
    reveal_strlit("\n");
    let none = Seq::<char>::empty();
    let shown = "CONNECT"@ + (seq![' '] + (id + none));
    assert(connect_line(id) =~= shown + seq!['\n']);
    assert(shown.last() == id.last());
    assert(shown[0] == 'C');
    lemma_trim_line(shown);
    assert(shown.subrange(0, 7) =~= "CONNECT"@);
    lemma_words_empty();
    lemma_words_front(id, none);
    lemma_words_space(' ', id + none);
    lemma_words_front("CONNECT"@, seq![' '] + (id + none));
    assert(text::words(shown) =~= seq!["CONNECT"@, id]);
}

// ---------------------------------------------------------------------------
// CALLBACK
// ---------------------------------------------------------------------------

/// The first line of a call back.
pub open spec fn callback_line(id: Seq<char>) -> Seq<char> {
    "CALLBACK "@ + id + "\n"@
}

/// Writes the first line of a call back.
pub fn callback_message(id: &str) -> (r: String)
    ensures
        r@ == callback_line(id@),
{
    let mut out = "CALLBACK ".to_owned();
    out.append(id);
    out.append("\n");
    out
}

/// The handshake that the first bytes of a connection call back for, if they
/// do.
pub open spec fn callback_id(data: Seq<u8>) -> Option<Seq<char>> {
    if vstd::utf8::valid_utf8(data) && text::starts_with(
        vstd::utf8::decode_utf8(data),
        "CALLBACK "@,
    ) {
        Some(text::trim(vstd::utf8::decode_utf8(data).skip("CALLBACK "@.len() as int)))
    } else {
        None
    }
}

/// Reads the first bytes of a connection.
pub fn parse_callback(data: &[u8]) -> (r: Option<String>)
    ensures
        match r {
            Some(id) => callback_id(data@) == Some(id@),
            None => callback_id(data@) is None,
        },
{
    match text::utf8_text(data) {
        Some(s) => {
            let cs = text::chars_of(s);
            let prefix = text::chars_of("CALLBACK ");
            if text::starts_with_slice(cs.as_slice(), prefix.as_slice()) {
                let rest = vstd::slice::slice_subrange(cs.as_slice(), prefix.len(), cs.len());
                assert(rest@ =~= cs@.skip(prefix@.len() as int));
                let id = text::trim_chars(rest);
                Some(text::string_of(id.as_slice()))
            } else {
                None
            }
        },
        None => None,
    }
}

/// The server reads from a call back the handshake that the client wrote.
pub proof fn callback_round_trip(id: Seq<char>)
    requires
        is_word(id),
    ensures
        callback_id(vstd::utf8::encode_utf8(callback_line(id))) == Some(id),
{
    reveal_strlit("CALLBACK ");
    reveal_strlit("\n");
    let line = callback_line(id);
    vstd::utf8::encode_utf8_valid_utf8(line);
    vstd::utf8::encode_utf8_decode_utf8(line);
    assert(line.subrange(0, 9) =~= "CALLBACK "@);
    assert(line.skip(9) =~= id + seq!['\n']);
    lemma_trim_line(id);
}

/// Bytes that do not begin with `CALLBACK` and a blank call back for nothing;
/// those that do, and are text, call back for what follows without the white
/// space around it.
pub proof fn only_call_backs_call_back(rest: Seq<char>, data: Seq<u8>)
    ensures
        callback_id(vstd::utf8::encode_utf8("CALLBACK "@ + rest)) == Some(text::trim(rest)),
        callback_id(data) is Some ==> vstd::utf8::valid_utf8(data) && "CALLBACK "@.is_prefix_of(
            vstd::utf8::decode_utf8(data),
        ),
{
    reveal_strlit("CALLBACK ");
    let line = "CALLBACK "@ + rest;
    vstd::utf8::encode_utf8_valid_utf8(line);
    vstd::utf8::encode_utf8_decode_utf8(line);
    assert(line.subrange(0, 9) =~= "CALLBACK "@);
    assert(line.skip(9) =~= rest);
}

// ---------------------------------------------------------------------------
// Identifiers
// ---------------------------------------------------------------------------

/// The identifier of a session: when it began, in milliseconds, and its port.
pub open spec fn session_name(millis: i64, port: u16) -> Seq<char> {
    numbers::signed_decimal(millis as int) + "-"@ + numbers::decimal(port as nat)
}

/// Makes the identifier of a session.
pub fn session_id(millis: i64, port: u16) -> (r: String)
    ensures
        r@ == session_name(millis, port),
{
    let mut out = String::new();
    numbers::push_signed_decimal(&mut out, millis);
    out.append("-");
    numbers::push_decimal(&mut out, port as u64);
    assert(Seq::<char>::empty() + numbers::signed_decimal(millis as int)
        =~= numbers::signed_decimal(millis as int));
    out
}

/// A session identifier is one word.
pub proof fn session_name_is_word(millis: i64, port: u16)
    ensures
        is_word(session_name(millis, port)),
{
    let m = numbers::signed_decimal(millis as int);
    let p = numbers::decimal(port as nat);
    numbers::lemma_decimal_no_space(millis as int);
    lemma_decimal_is_word(port as nat);
    reveal_strlit("-");
    let s = session_name(millis, port);
    assert forall|i: int| 0 <= i < s.len() implies !text::is_space(#[trigger] s[i]) by {
        if i < m.len() {
            assert(s[i] == m[i]);
        } else if i == m.len() {
            assert(s[i] == '-');
        } else {
            assert(s[i] == p[i - m.len() - 1]);
        }
    }
}

/// Sessions that begin at different moments or on different ports have
/// different identifiers.
pub proof fn session_names_differ(millis: i64, port: u16, other_millis: i64, other_port: u16)
    requires
        session_name(millis, port) == session_name(other_millis, other_port),
    ensures
        millis == other_millis,
        port == other_port,
{
    let m = numbers::signed_decimal(millis as int);
    let n = numbers::signed_decimal(other_millis as int);
    let p = numbers::decimal(port as nat);
    let q = numbers::decimal(other_port as nat);
    let s = session_name(millis, port);
    reveal_strlit("-");
    numbers::lemma_decimal_value(port as nat);
    numbers::lemma_decimal_value(other_port as nat);
    assert(s =~= m + seq!['-'] + p);
    assert(s =~= n + seq!['-'] + q);
    assert(s[m.len() as int] == '-');
    assert(s[n.len() as int] == '-');
    if m.len() < n.len() {
        assert(s[n.len() as int] == p[n.len() - m.len() - 1]);
        assert(numbers::is_digit(p[n.len() - m.len() - 1]));
    } else if n.len() < m.len() {
        assert(s[m.len() as int] == q[m.len() - n.len() - 1]);
        assert(numbers::is_digit(q[m.len() - n.len() - 1]));
    }
    assert(m =~= s.take(m.len() as int));
    assert(n =~= s.take(n.len() as int));
    assert(p =~= s.skip(m.len() as int + 1));
    assert(q =~= s.skip(n.len() as int + 1));
    numbers::signed_decimals_differ(millis as int, other_millis as int);
}

/// Whatever handshake the server asks a call back for, the client's call back
/// names that handshake.
pub proof fn handshake_survives_the_exchange(millis: i64, port: u16)
    ensures
        connect_request(connect_line(session_name(millis, port))) == ConnectLineView::Handshake(
            session_name(millis, port),
        ),
        callback_id(vstd::utf8::encode_utf8(callback_line(session_name(millis, port)))) == Some(
            session_name(millis, port),
        ),
{
    session_name_is_word(millis, port);
    connect_round_trip(session_name(millis, port));
    callback_round_trip(session_name(millis, port));
}

/// The lines that are sent are a word, what it is about, with single blanks between,
/// and a line feed.
pub proof fn lines_are_written_word_by_word(
    backend_port: u16,
    public_port: u16,
    id: Seq<char>,
    millis: i64,
)
    ensures
        register_line(backend_port, public_port) == "REGISTER"@ + seq![' '] + numbers::decimal(
            backend_port as nat,
        ) + seq![' '] + numbers::decimal(public_port as nat) + seq!['\n'],
        ready_line() == "READY"@ + seq!['\n'],
        announces_visitor(ready_line()),
        connect_line(id) == "CONNECT"@ + seq![' '] + id + seq!['\n'],
        callback_line(id) == "CALLBACK"@ + seq![' '] + id + seq!['\n'],
        session_name(millis, public_port) == numbers::signed_decimal(millis as int) + seq!['-']
            + numbers::decimal(public_port as nat),
{
    reveal_strlit("REGISTER");
    reveal_strlit("REGISTER ");
    reveal_strlit("READY");
    reveal_strlit("READY\n");
    reveal_strlit("CONNECT");
    reveal_strlit("CONNECT ");
    reveal_strlit("CALLBACK");
    reveal_strlit("CALLBACK ");
    reveal_strlit(" ");
    reveal_strlit("\n");
    reveal_strlit("-");
    ready_is_understood();
    assert("REGISTER "@ =~= "REGISTER"@ + seq![' ']);
    assert("CONNECT "@ =~= "CONNECT"@ + seq![' ']);
    assert("CALLBACK "@ =~= "CALLBACK"@ + seq![' ']);
    assert(" "@ =~= seq![' ']);
    assert("\n"@ =~= seq!['\n']);
    assert("-"@ =~= seq!['-']);
}

/// A line that begins with `CONNECT`, white space aside, asks for a call back to its
/// second word, whatever follows, and names no handshake where it has only one word. A
/// line that begins neither so nor with `ERROR:` is unexpected.
pub proof fn connect_lines_name_a_handshake(line: Seq<char>)
    ensures
        "CONNECT"@.is_prefix_of(text::trim(line)) && text::words(text::trim(line)).len() >= 2
            ==> connect_request(line) == ConnectLineView::Handshake(
            text::words(text::trim(line))[1],
        ),
        "CONNECT"@.is_prefix_of(text::trim(line)) && text::words(text::trim(line)).len() < 2
            ==> connect_request(line) == ConnectLineView::NoHandshake,
        !"CONNECT"@.is_prefix_of(text::trim(line)) && !"ERROR:"@.is_prefix_of(text::trim(line))
            ==> connect_request(line) == ConnectLineView::Unexpected,
{
    let t = text::trim(line);
    reveal_strlit("CONNECT");
    reveal_strlit("ERROR:");
    if text::starts_with(t, "CONNECT"@) {
        assert(t.subrange(0, 7) == "CONNECT"@);
    }
    if text::starts_with(t, "ERROR:"@) {
        assert(t.subrange(0, 6) == "ERROR:"@);
    }
}

/// A refused registration is told what is wrong with it, in a line that the client
/// takes for an error.
pub proof fn refusals_are_errors(e: RegisterError)
    ensures
        connect_request(e.reply_text()) == ConnectLineView::ServerError,
        !announces_visitor(e.reply_text()),
        e.reply_text() == "ERROR: "@ + (match e {
            RegisterError::InvalidCommand => "Invalid command"@,
            RegisterError::InvalidBackendPort => "Invalid backend port"@,
            RegisterError::InvalidPublicPort => "Invalid public port"@,
            RegisterError::PublicPortInUse => "Public port in use"@,
        }) + seq!['\n'],
{
    reveal_strlit("ERROR: ");
    reveal_strlit("ERROR:");
    reveal_strlit("READY");
    reveal_strlit("CONNECT");
    reveal_strlit("Invalid command");
    reveal_strlit("Invalid backend port");
    reveal_strlit("Invalid public port");
    reveal_strlit("Public port in use");
    reveal_strlit("ERROR: Invalid command\n");
    reveal_strlit("ERROR: Invalid backend port\n");
    reveal_strlit("ERROR: Invalid public port\n");
    reveal_strlit("ERROR: Public port in use\n");
    let s = e.reply_text().drop_last();
    assert(s.len() > 6);
    assert(s[0] == 'E' && s[1] == 'R' && s[2] == 'R' && s[3] == 'O' && s[4] == 'R' && s[5] == ':');
    assert(e.reply_text() =~= s + seq!['\n']);
    assert(!text::is_space(s.last()));
    lemma_trim_line(s);
    assert("ERROR:"@ =~= s.subrange(0, 6));
    other_lines_ask_for_nothing(e.reply_text());
}

/// A word is a port exactly where it is a number up to 65535. Of three words the first
/// of which is `REGISTER`, the second is the backend port and is looked at first, the
/// third is the public port; where both are ports they are registered.
pub proof fn ports_are_numbers_up_to_65535(line: Seq<char>, word: Seq<char>)
    ensures
        port_of(word) == numbers::parse_unsigned(word, 65_535),
        ({
            let words = text::words(line);
            words.len() == 3 && words[0] == "REGISTER"@ ==> {
                &&& port_of(words[1]) is None ==> register_request(line) == Err::<
                    (int, int),
                    RegisterError,
                >(RegisterError::InvalidBackendPort)
                &&& port_of(words[1]) is Some && port_of(words[2]) is None ==> register_request(
                    line,
                ) == Err::<(int, int), RegisterError>(RegisterError::InvalidPublicPort)
                &&& port_of(words[1]) matches Some(b) ==> (port_of(words[2]) matches Some(p)
                    ==> register_request(line) == Ok::<(int, int), RegisterError>((b, p)))
            }
        }),
{
}

} // verus!
