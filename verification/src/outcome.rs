//! What the broker's operations come to: the errors of a submission and of a
//! completion, and the answer to an inbound request.

use crate::ident::RequestId;
use crate::message::{Job, Response, Status};
use crate::rendezvous::Consumer;
use vstd::prelude::*;
use vstd::string::*;

verus! {

/// Why a job was not taken.
#[derive(Clone, Copy, Debug, PartialEq, Eq)]
pub enum SubmitError {
    /// No worker was there to take the job. `discarded` workers were in the
    /// queue, all of them abandoned.
    NoWorkerAvailable { discarded: usize },
    /// A response is already pending under the id of the job. Nothing was
    /// touched.
    IdInUse,
}

/// Why a completion was not delivered.
#[derive(Clone, Copy, Debug, PartialEq, Eq)]
pub enum CompleteError {
    /// No response is pending under the id: it is unknown, or its job has been
    /// completed before.
    NotFound,
    /// The response was pending, but the client that waited for it is gone.
    InternalError,
}

/// A job that a worker has taken.
#[verifier::reject_recursive_types(P)]
pub struct Matched<P> {
    /// The id under which the result is expected.
    pub id: RequestId,
    /// Where the result will arrive.
    pub reply: Consumer<Response<P>>,
    /// How many abandoned workers were dropped from the queue on the way.
    pub discarded: usize,
}

/// What one attempt to hand a job to a worker has come to.
#[verifier::reject_recursive_types(P)]
pub enum Round<P> {
    /// The submission is settled: the worker took the job, and the client is
    /// registered for the result or was refused.
    Settled(Result<Matched<P>, SubmitError>),
    /// The worker did not take the job, which is back for the next attempt.
    Again(Job<P>),
}

/// The answer to an inbound request: either a response that is ready, or the
/// consumer half of the slot through which the response will come.
#[verifier::reject_recursive_types(P)]
pub enum Reply<P> {
    /// Answer with this response.
    Now(Response<P>),
    /// Answer a worker with the job that arrives here.
    OnJob(Consumer<Job<P>>),
    /// Answer a client with the response that arrives for the job that a
    /// worker has taken.
    OnResult(Matched<P>),
}

impl<P> Reply<P> {
    /// The name under which the answer is watched while it is outstanding:
    /// `Next()` for a worker's poll, `Invoke sent` for a client's, and the
    /// status for a response that is ready.
    pub open spec fn label_of(&self) -> Seq<char> {
        match self {
            Reply::Now(response) => response.status.text_of(),
            Reply::OnJob(_) => "Next()"@,
            Reply::OnResult(_) => "Invoke sent"@,
        }
    }

    /// The name under which the answer is watched while it is outstanding.
    pub fn label(&self) -> (label: String)
        ensures
            label@ == self.label_of(),
    {
        match self {
            Reply::Now(response) => String::from_str(response.status.text()),
            Reply::OnJob(_) => String::from_str("Next()"),
            Reply::OnResult(_) => String::from_str("Invoke sent"),
        }
    }
}

impl SubmitError {
    /// The status by which the error is reported.
    pub open spec fn status_of(self) -> Status {
        match self {
            SubmitError::NoWorkerAvailable { .. } => Status::NotAcceptable,
            SubmitError::IdInUse => Status::InternalServerError,
        }
    }

    /// The status by which the error is reported.
    #[verifier::when_used_as_spec(status_of)]
    pub fn status(self) -> (status: Status)
        ensures
            status == self.status_of(),
    {
        match self {
            SubmitError::NoWorkerAvailable { .. } => Status::NotAcceptable,
            SubmitError::IdInUse => Status::InternalServerError,
        }
    }
}

/// The status by which the outcome of a completion is reported.
pub open spec fn completion_status_of(outcome: Result<(), CompleteError>) -> Status {
    match outcome {
        Ok(()) => Status::Accepted,
        Err(CompleteError::NotFound) => Status::NotFound,
        Err(CompleteError::InternalError) => Status::InternalServerError,
    }
}

/// The status by which the outcome of a completion is reported.
#[verifier::when_used_as_spec(completion_status_of)]
pub fn completion_status(outcome: Result<(), CompleteError>) -> (status: Status)
    ensures
        status == completion_status_of(outcome),
{
    match outcome {
        Ok(()) => Status::Accepted,
        Err(CompleteError::NotFound) => Status::NotFound,
        Err(CompleteError::InternalError) => Status::InternalServerError,
    }
}

/// What a completion comes to once the response has been offered to the slot
/// of the client: success if it was taken, an internal error if it came back.
pub fn delivery_outcome<T>(offer: Result<(), T>) -> (outcome: Result<(), CompleteError>)
    ensures
        outcome == if offer is Ok {
            Ok::<(), CompleteError>(())
        } else {
            Err::<(), CompleteError>(CompleteError::InternalError)
        },
{
    match offer {
        Ok(()) => Ok(()),
        Err(_) => Err(CompleteError::InternalError),
    }
}

} // verus!
