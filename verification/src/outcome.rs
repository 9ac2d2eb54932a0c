//! Replies of the server and what goes wrong.
use vstd::prelude::*;

verus! {

/// The status of a reply: its code, and the text by which it is shown.
#[derive(Debug, PartialEq, Eq)]
pub struct HttpStatus {
    pub code: u16,
    pub text: String,
}

impl HttpStatus {
    /// The code is one of those for success.
    pub open spec fn succeeded(self) -> bool {
        200 <= self.code < 300
    }

    /// Whether the code is one of those for success.
    pub fn is_success(&self) -> (r: bool)
        ensures
            r == self.succeeded(),
    {
        200 <= self.code && self.code < 300
    }
}

/// What went wrong, and what that came from.
#[derive(Debug, PartialEq, Eq)]
pub struct ExternalError {
    pub message: String,
    pub cause: Option<String>,
}

impl ExternalError {
    /// The error is `message`, without a cause.
    pub open spec fn says(self, message: Seq<char>) -> bool {
        self.message@ == message && self.cause is None
    }

    /// The error is `message`, and came from `cause`.
    pub open spec fn says_because(self, message: Seq<char>, cause: Seq<char>) -> bool {
        self.message@ == message && self.cause is Some && self.cause->0@ == cause
    }

    /// An error without a cause.
    pub fn new(message: String) -> (r: ExternalError)
        ensures
            r == (ExternalError { message, cause: None }),
            r.says(message@),
    {
        ExternalError { message, cause: None }
    }

    /// An error that came from another.
    pub fn because(message: &str, cause: String) -> (r: ExternalError)
        ensures
            r.says_because(message@, cause@),
    {
        ExternalError { message: message.to_owned(), cause: Some(cause) }
    }
}

/// How an unsuccessful reply is reported; `kind` is empty for a request for a prediction, and
/// for other requests their kind and a space.
pub open spec fn server_error_text(
    kind: Seq<char>,
    status: Seq<char>,
    body: Seq<char>,
) -> Seq<char> {
    "external edit prediction "@ + kind + "server error: "@ + status + " - "@ + body
}

/// The report of an unsuccessful reply.
pub fn server_error(kind: &str, status: &str, body: &str) -> (r: ExternalError)
    ensures
        r.says(server_error_text(kind@, status@, body@)),
{
    let mut message: String = "external edit prediction ".to_owned();
    message.append(kind);
    message.append("server error: ");
    message.append(status);
    message.append(" - ");
    message.append(body);
    ExternalError::new(message)
}

/// A reply is a success just if the first of the three digits of its code is a two.
pub proof fn law_success(status: HttpStatus)
    ensures
        status.succeeded() <==> status.code / 100 == 2,
{
}

/// An error holds its message, and its cause if it has one, character by character.
pub proof fn law_error_says(error: ExternalError, message: Seq<char>, cause: Seq<char>)
    ensures
        error.says(message) <==> error.message@ == message && error.cause is None,
        error.says_because(message, cause) <==> error.message@ == message && error.cause is Some
            && error.cause->0@ == cause,
{
}

/// The report of an unsuccessful reply names the kind of request, the status and the body, each
/// whole and in this order.
pub proof fn law_server_error_text(kind: Seq<char>, status: Seq<char>, body: Seq<char>)
    ensures
        server_error_text(kind, status, body) == "external edit prediction "@ + kind
            + "server error: "@ + status + " - "@ + body,
{
}

} // verus!
