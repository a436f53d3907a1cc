//! How an operation of the client fails.
use crate::json::jsons;
use crate::json::JsonView;
use serde_json::Value;
use vstd::prelude::*;

verus! {

/// Why an operation failed.
#[derive(Debug)]
pub enum Error {
    /// The server's answer does not hold what was asked for under the given pointer.
    InvalidResponse(Vec<Value>, String),
    /// The server refused, with this message.
    ServerError(String),
    /// There is no connection.
    Disconnected,
    /// The server answered with something other than text.
    UnsupportedResponse,
    /// The call could not be sent.
    CommunicationError(String),
    /// The server did not answer the call of this method in time.
    CallTimeout(String),
    /// The login was refused, with this message.
    LoginError(String),
    /// No group of this name exists.
    GroupNotFound(String),
    /// No item of this kind has this id.
    IdNotFound(String, i32),
    /// The server is reachable, and did not let the client in.
    NotAuthenticated,
    /// The server was not reached in time.
    ConnectionTimeout,
    /// The lists of the server have not arrived.
    NotReady,
}

/// What an `Error` holds.
pub enum ErrorView {
    InvalidResponse(Seq<JsonView>, Seq<char>),
    ServerError(Seq<char>),
    Disconnected,
    UnsupportedResponse,
    CommunicationError(Seq<char>),
    CallTimeout(Seq<char>),
    LoginError(Seq<char>),
    GroupNotFound(Seq<char>),
    IdNotFound(Seq<char>, i32),
    NotAuthenticated,
    ConnectionTimeout,
    NotReady,
}

impl View for Error {
    type V = ErrorView;

    open spec fn view(&self) -> ErrorView {
        match *self {
            Error::InvalidResponse(response, pointer) => ErrorView::InvalidResponse(
                jsons(response@),
                pointer@,
            ),
            Error::ServerError(message) => ErrorView::ServerError(message@),
            Error::Disconnected => ErrorView::Disconnected,
            Error::UnsupportedResponse => ErrorView::UnsupportedResponse,
            Error::CommunicationError(message) => ErrorView::CommunicationError(message@),
            Error::CallTimeout(method) => ErrorView::CallTimeout(method@),
            Error::LoginError(message) => ErrorView::LoginError(message@),
            Error::GroupNotFound(name) => ErrorView::GroupNotFound(name@),
            Error::IdNotFound(kind, id) => ErrorView::IdNotFound(kind@, id),
            Error::NotAuthenticated => ErrorView::NotAuthenticated,
            Error::ConnectionTimeout => ErrorView::ConnectionTimeout,
            Error::NotReady => ErrorView::NotReady,
        }
    }
}

/// A result whose error is taken by what it holds.
pub open spec fn result_view<T>(result: Result<T, Error>) -> Result<T, ErrorView> {
    match result {
        Ok(value) => Ok(value),
        Err(error) => Err(error@),
    }
}

/// A result is a success with its value, or a failure with what its error holds.
pub proof fn law_result_view<T>(value: T, error: Error)
    ensures
        result_view(Ok::<T, Error>(value)) == Ok::<T, ErrorView>(value),
        result_view(Err::<T, Error>(error)) == Err::<T, ErrorView>(error@),
{
}

/// Two errors that count as the same are of the same kind and tell the same.
pub proof fn law_error_view_is_faithful(a: Error, b: Error)
    requires
        a@ == b@,
    ensures
        match (a, b) {
            (Error::InvalidResponse(x, p), Error::InvalidResponse(y, q)) => jsons(x@) == jsons(y@)
                && p@ == q@,
            (Error::ServerError(x), Error::ServerError(y)) => x@ == y@,
            (Error::Disconnected, Error::Disconnected) => true,
            (Error::UnsupportedResponse, Error::UnsupportedResponse) => true,
            (Error::CommunicationError(x), Error::CommunicationError(y)) => x@ == y@,
            (Error::CallTimeout(x), Error::CallTimeout(y)) => x@ == y@,
            (Error::LoginError(x), Error::LoginError(y)) => x@ == y@,
            (Error::GroupNotFound(x), Error::GroupNotFound(y)) => x@ == y@,
            (Error::IdNotFound(x, m), Error::IdNotFound(y, n)) => x@ == y@ && m == n,
            (Error::NotAuthenticated, Error::NotAuthenticated) => true,
            (Error::ConnectionTimeout, Error::ConnectionTimeout) => true,
            (Error::NotReady, Error::NotReady) => true,
            _ => false,
        },
{
}

/// What an error holds is named like the error.
pub proof fn law_error_view_keeps_kind(error: Error)
    ensures
        error is InvalidResponse <==> error@ is InvalidResponse,
        error is ServerError <==> error@ is ServerError,
        error is Disconnected <==> error@ is Disconnected,
        error is UnsupportedResponse <==> error@ is UnsupportedResponse,
        error is CommunicationError <==> error@ is CommunicationError,
        error is CallTimeout <==> error@ is CallTimeout,
        error is LoginError <==> error@ is LoginError,
        error is GroupNotFound <==> error@ is GroupNotFound,
        error is IdNotFound <==> error@ is IdNotFound,
        error is NotAuthenticated <==> error@ is NotAuthenticated,
        error is ConnectionTimeout <==> error@ is ConnectionTimeout,
        error is NotReady <==> error@ is NotReady,
{
}

} // verus!
