use vstd::prelude::*;

verus! {

/// Why a replay was not read to its end.
#[derive(Debug)]
pub enum Error {
    /// The input ended inside a value.
    UnexpectedEof,
    /// The first event is not the table of payload sizes but has this code.
    ExpectedPayloads(u8),
    /// The table of payload sizes cannot have this size in bytes.
    InvalidPayloadSize(u8),
    /// A facing direction is neither left nor right.
    NoDirection,
    /// Fixed bytes of the file format are not there.
    ExpectedBytes { expected: Vec<u8>, actual: Vec<u8> },
    /// The table of payload sizes does not list this event.
    UnknownEvent(u8),
    /// A second table of payload sizes.
    UnexpectedEvent(u8),
    /// No UBJSON key, value or end of map starts with this byte.
    UnexpectedToken(u8),
    /// A UBJSON string is not valid UTF-8.
    InvalidUtf8,
    /// A handler failed.
    Handler(std::io::Error),
}

/// What an [`Error`] says, with its bytes as sequences.
pub enum Failure {
    UnexpectedEof,
    ExpectedPayloads(u8),
    InvalidPayloadSize(u8),
    NoDirection,
    ExpectedBytes { expected: Seq<u8>, actual: Seq<u8> },
    UnknownEvent(u8),
    UnexpectedEvent(u8),
    UnexpectedToken(u8),
    InvalidUtf8,
    Handler(std::io::Error),
}

impl View for Error {
    type V = Failure;

    open spec fn view(&self) -> Failure {
        match *self {
            Error::UnexpectedEof => Failure::UnexpectedEof,
            Error::ExpectedPayloads(code) => Failure::ExpectedPayloads(code),
            Error::InvalidPayloadSize(size) => Failure::InvalidPayloadSize(size),
            Error::NoDirection => Failure::NoDirection,
            Error::ExpectedBytes { expected, actual } => Failure::ExpectedBytes {
                expected: expected@,
                actual: actual@,
            },
            Error::UnknownEvent(code) => Failure::UnknownEvent(code),
            Error::UnexpectedEvent(code) => Failure::UnexpectedEvent(code),
            Error::UnexpectedToken(token) => Failure::UnexpectedToken(token),
            Error::InvalidUtf8 => Failure::InvalidUtf8,
            Error::Handler(e) => Failure::Handler(e),
        }
    }
}

/// `res` is what `model` says: the same value, or the same failure.
pub open spec fn agrees<T>(res: Result<T, Error>, model: Result<T, Failure>) -> bool {
    match (res, model) {
        (Ok(value), Ok(expected)) => value == expected,
        (Err(e), Err(failure)) => e@ == failure,
        _ => false,
    }
}

/// An error is told apart by its view, and so is what it carries.
pub proof fn law_error_view(e: Error)
    ensures
        match e {
            Error::UnexpectedEof => e@ is UnexpectedEof,
            Error::ExpectedPayloads(code) => e@ == Failure::ExpectedPayloads(code),
            Error::InvalidPayloadSize(size) => e@ == Failure::InvalidPayloadSize(size),
            Error::NoDirection => e@ is NoDirection,
            Error::ExpectedBytes { expected, actual } => e@ is ExpectedBytes
                && e@->ExpectedBytes_expected == expected@ && e@->ExpectedBytes_actual == actual@,
            Error::UnknownEvent(code) => e@ == Failure::UnknownEvent(code),
            Error::UnexpectedEvent(code) => e@ == Failure::UnexpectedEvent(code),
            Error::UnexpectedToken(token) => e@ == Failure::UnexpectedToken(token),
            Error::InvalidUtf8 => e@ is InvalidUtf8,
            Error::Handler(error) => e@ == Failure::Handler(error),
        },
{
}

/// What agrees with a model is its value and nothing else, or its failure and no other.
pub proof fn law_agrees<T>(res: Result<T, Error>, model: Result<T, Failure>)
    requires
        agrees(res, model),
    ensures
        res is Ok <==> model is Ok,
        res is Ok ==> res->Ok_0 == model->Ok_0,
        res is Err ==> res->Err_0@ == model->Err_0,
{
}

} // verus!
