//! What goes wrong in a session.

use vstd::prelude::*;

verus! {

/// An error of the proxy.
#[derive(Debug)]
pub enum ProxyError {
    /// An input or output error, by its own text.
    Io(String),
    /// A network error.
    Network(String),
    /// A message that could not be read.
    Parse(String),
    /// Anything else.
    Msg(String),
}

/// What a `ProxyError` holds.
pub enum ProxyErrorView {
    Io(Seq<char>),
    Network(Seq<char>),
    Parse(Seq<char>),
    Msg(Seq<char>),
}

impl View for ProxyError {
    type V = ProxyErrorView;

    open spec fn view(&self) -> ProxyErrorView {
        match self {
            ProxyError::Io(s) => ProxyErrorView::Io(s@),
            ProxyError::Network(s) => ProxyErrorView::Network(s@),
            ProxyError::Parse(s) => ProxyErrorView::Parse(s@),
            ProxyError::Msg(s) => ProxyErrorView::Msg(s@),
        }
    }
}

pub type ProxyResult<T> = std::result::Result<T, ProxyError>;

impl ProxyError {
    /// What the error says.
    pub open spec fn text(self) -> Seq<char> {
        match self {
            ProxyError::Io(s) => s@,
            ProxyError::Network(s) => "Network error: "@ + s@,
            ProxyError::Parse(s) => "Parsing error: "@ + s@,
            ProxyError::Msg(s) => "Other: "@ + s@,
        }
    }

    /// The error as it is shown.
    pub fn message(&self) -> (r: String)
        ensures
            r@ == self.text(),
    {
        let (prefix, detail): (&str, &String) = match self {
            ProxyError::Io(s) => ("", s),
            ProxyError::Network(s) => ("Network error: ", s),
            ProxyError::Parse(s) => ("Parsing error: ", s),
            ProxyError::Msg(s) => ("Other: ", s),
        };
        let mut out = prefix.to_owned();
        out.append(detail.as_str());
        proof {
            reveal_strlit("");
            assert(""@ + detail@ =~= detail@);
        }
        out
    }
}

impl<'a> From<&'a str> for ProxyError {
    fn from(s: &'a str) -> (r: Self)
        ensures
            r@ == ProxyErrorView::Msg(s@),
    {
        ProxyError::Msg(s.to_owned())
    }
}

impl<'a> vstd::std_specs::convert::FromSpecImpl<&'a str> for ProxyError {
    open spec fn obeys_from_spec() -> bool {
        false
    }

    open spec fn from_spec(s: &'a str) -> Self {
        arbitrary()
    }
}

impl From<String> for ProxyError {
    fn from(s: String) -> (r: Self) {
        ProxyError::Msg(s)
    }
}

impl vstd::std_specs::convert::FromSpecImpl<String> for ProxyError {
    open spec fn obeys_from_spec() -> bool {
        true
    }

    open spec fn from_spec(s: String) -> Self {
        ProxyError::Msg(s)
    }
}

/// An input or output error says its own text; every other says its kind first, and
/// then its text.
pub proof fn errors_say_their_kind(e: ProxyError)
    ensures
        e matches ProxyError::Io(s) ==> e.text() == s@,
        e matches ProxyError::Network(s) ==> e.text() == "Network error: "@ + s@,
        e matches ProxyError::Parse(s) ==> e.text() == "Parsing error: "@ + s@,
        e matches ProxyError::Msg(s) ==> e.text() == "Other: "@ + s@,
{
}

} // verus!
