//! The failures that the library reports.

use crate::text::{join, joined};
use vstd::prelude::*;
use vstd::string::StringExecFns;

verus! {

/// The classes of failure. A caller decides by the class; the message is
/// for people.
#[derive(Clone, Copy, Debug, PartialEq, Eq, Structural)]
pub enum ErrorKind {
    /// An account, or an account's ticket slot in a series, is not known.
    NotFound,
    /// The remote side answered with errors, or with data that cannot be read.
    RemoteProtocol,
    /// A reference string does not hold the parameter that was asked for.
    ParamExtraction,
    /// The remote side named a redemption process that is not known.
    UnknownProcess,
    /// No entitlement was found and the finder is in its cooldown window.
    Cooldown,
    /// No entitlement was found in either attempt.
    Exhausted,
}

/// A failure: its class and a message.
#[derive(Clone, Debug, PartialEq, Eq)]
pub struct Error {
    pub kind: ErrorKind,
    pub message: String,
}

/// An [`Error`] as a value of the specification.
pub struct ErrorView {
    pub kind: ErrorKind,
    pub message: Seq<char>,
}

impl View for Error {
    type V = ErrorView;

    open spec fn view(&self) -> ErrorView {
        ErrorView { kind: self.kind, message: self.message@ }
    }
}

/// The failure that carries the messages `messages` of the remote side,
/// with `, ` between them.
pub open spec fn reported(messages: Seq<Seq<char>>) -> ErrorView {
    ErrorView { kind: ErrorKind::RemoteProtocol, message: joined(messages, ", "@) }
}

/// What a failed request is answered with.
pub open spec fn response_text(message: Seq<char>) -> Seq<char> {
    "Something went wrong: "@ + message
}

impl Error {
    pub fn new(kind: ErrorKind, message: String) -> (error: Error)
        ensures
            error@ == (ErrorView { kind, message: message@ }),
    {
        Error { kind, message }
    }

    /// A failure of the class `kind` with the message `text`.
    pub fn of(kind: ErrorKind, text: &str) -> (error: Error)
        ensures
            error@ == (ErrorView { kind, message: text@ }),
    {
        Error { kind, message: String::from_str(text) }
    }

    /// The failure of a query to which the remote side has answered with
    /// the errors `messages` in place of data.
    pub fn reported(messages: &Vec<String>) -> (error: Error)
        ensures
            error@ == reported(messages.deep_view()),
    {
        Error { kind: ErrorKind::RemoteProtocol, message: join(messages, ", ") }
    }

    /// The status code that a failed request is answered with.
    pub fn status(&self) -> (code: u16)
        ensures
            code == 500,
    {
        500
    }

    /// The body that a failed request is answered with.
    pub fn response_text(&self) -> (text: String)
        ensures
            text@ == response_text(self.message@),
    {
        let mut text = String::from_str("Something went wrong: ");
        text.append(self.message.as_str());
        text
    }
}

/// What is made of each of `items` by `make`, in order: the failure of the
/// first item that fails, where one does.
pub open spec fn each_or_failure<A, B>(
    items: Seq<A>,
    make: spec_fn(A) -> Result<B, ErrorView>,
) -> Result<Seq<B>, ErrorView>
    decreases items.len(),
{
    if items.len() == 0 {
        Ok(Seq::empty())
    } else {
        match each_or_failure(items.drop_last(), make) {
            Err(failure) => Err(failure),
            Ok(made) => match make(items.last()) {
                Err(failure) => Err(failure),
                Ok(one) => Ok(made.push(one)),
            },
        }
    }
}

/// A failure among the first items is the failure of them all.
pub proof fn lemma_failure_stays<A, B>(
    items: Seq<A>,
    make: spec_fn(A) -> Result<B, ErrorView>,
    at: int,
)
    requires
        0 <= at < items.len(),
        each_or_failure(items.take(at + 1), make) is Err,
    ensures
        each_or_failure(items, make) == each_or_failure(items.take(at + 1), make),
    decreases items.len(),
{
    if at + 1 == items.len() {
        assert(items.take(at + 1) =~= items);
    } else {
        assert(items.drop_last().take(at + 1) =~= items.take(at + 1));
        lemma_failure_stays(items.drop_last(), make, at);
    }
}

} // verus!

