//! What one poll of a node comes to. The request itself is made elsewhere;
//! here it is decided, from how the request went, whether a body is to be
//! read, and what the poll's result is.

use crate::data::DataPoint;
use vstd::prelude::*;

verus! {

/// The only status with which a node hands out a measurement.
pub const STATUS_OK: u16 = 200;

/// Why a poll gave no measurement.
#[derive(Clone, Copy, Debug, PartialEq, Eq, Structural)]
pub enum PollError {
    /// No answer came within the time allowed.
    Timeout,
    /// The node could not be reached.
    ConnectionFailed,
    /// The node answered with the given status, which is not `STATUS_OK`.
    HttpError(u16),
    /// The body was not a measurement of the expected shape.
    DecodeError,
}

/// How the request to a node went.
#[derive(Clone, Copy, Debug, PartialEq, Eq, Structural)]
pub enum SendOutcome {
    /// No answer came within the time allowed.
    TimedOut,
    /// The request failed in some other way before an answer came.
    ConnectionFailed,
    /// The node answered with this status.
    Answered(u16),
}

/// What follows the request.
#[derive(Clone, Copy, Debug, PartialEq, Eq, Structural)]
pub enum AfterSend {
    /// The body is to be read and decoded.
    ReadBody,
    /// The poll has failed.
    Fail(PollError),
}

/// What follows a request that went as `sent` says.
pub open spec fn send_verdict(sent: SendOutcome) -> AfterSend {
    match sent {
        SendOutcome::TimedOut => AfterSend::Fail(PollError::Timeout),
        SendOutcome::ConnectionFailed => AfterSend::Fail(PollError::ConnectionFailed),
        SendOutcome::Answered(status) => if status == STATUS_OK {
            AfterSend::ReadBody
        } else {
            AfterSend::Fail(PollError::HttpError(status))
        },
    }
}

/// The result of a poll whose body was read: the measurement that the body
/// decoded to, or a decode error where it did not decode.
pub open spec fn body_verdict(decoded: Option<DataPoint>) -> Result<DataPoint, PollError> {
    match decoded {
        Some(point) => Ok(point),
        None => Err(PollError::DecodeError),
    }
}

/// The result of a whole poll: of the request, and of the body where one was
/// to be read.
pub open spec fn poll_verdict(sent: SendOutcome, decoded: Option<DataPoint>) -> Result<
    DataPoint,
    PollError,
> {
    match send_verdict(sent) {
        AfterSend::ReadBody => body_verdict(decoded),
        AfterSend::Fail(e) => Err(e),
    }
}

/// Decides what follows the request. Only an answer with `STATUS_OK` has its
/// body read; any other answer, and any failure to get one, ends the poll.
pub fn after_send(sent: SendOutcome) -> (r: AfterSend)
    ensures
        r == send_verdict(sent),
{
    match sent {
        SendOutcome::TimedOut => AfterSend::Fail(PollError::Timeout),
        SendOutcome::ConnectionFailed => AfterSend::Fail(PollError::ConnectionFailed),
        SendOutcome::Answered(status) => {
            if status == STATUS_OK {
                AfterSend::ReadBody
            } else {
                AfterSend::Fail(PollError::HttpError(status))
            }
        },
    }
}

/// The result of a poll whose body was read.
pub fn after_body(decoded: Option<DataPoint>) -> (r: Result<DataPoint, PollError>)
    ensures
        r == body_verdict(decoded),
{
    match decoded {
        Some(point) => Ok(point),
        None => Err(PollError::DecodeError),
    }
}

/// The result of a whole poll. `decoded` counts only where the body was to
/// be read.
pub fn conclude(sent: SendOutcome, decoded: Option<DataPoint>) -> (r: Result<DataPoint, PollError>)
    ensures
        r == poll_verdict(sent, decoded),
{
    match after_send(sent) {
        AfterSend::ReadBody => after_body(decoded),
        AfterSend::Fail(e) => Err(e),
    }
}

/// A poll gives a measurement only where the node answered with `STATUS_OK`
/// and the body decoded, and then it gives that measurement; every other
/// poll gives the error that names what went wrong.
pub proof fn law_poll_verdict(sent: SendOutcome, decoded: Option<DataPoint>)
    ensures
        poll_verdict(sent, decoded) is Ok <==> sent == SendOutcome::Answered(STATUS_OK)
            && decoded is Some,
        poll_verdict(sent, decoded) matches Ok(point) ==> decoded == Some(point),
        sent == SendOutcome::TimedOut ==> poll_verdict(sent, decoded) == Err::<
            DataPoint,
            PollError,
        >(PollError::Timeout),
        sent == SendOutcome::ConnectionFailed ==> poll_verdict(sent, decoded) == Err::<
            DataPoint,
            PollError,
        >(PollError::ConnectionFailed),
        forall|status: u16|
            sent == SendOutcome::Answered(status) && status != STATUS_OK ==> poll_verdict(
                sent,
                decoded,
            ) == Err::<DataPoint, PollError>(PollError::HttpError(status)),
        sent == SendOutcome::Answered(STATUS_OK) && decoded is None ==> poll_verdict(sent, decoded)
            == Err::<DataPoint, PollError>(PollError::DecodeError),
{
}

} // verus!
