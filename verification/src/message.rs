//! What travels through the broker: jobs, responses and their status, and the
//! routing of an inbound request to one of the broker's operations.

use crate::ident::RequestId;
use crate::text::text_eq;
use vstd::prelude::*;

verus! {

/// The name of the header that carries the request id: on the response to a
/// worker that asked for a job, and on the request by which the worker
/// completes it.
pub const REQUEST_ID_HEADER: &'static str = "X-Request-Id";

/// The status of a response.
#[derive(Clone, Copy, Debug, PartialEq, Eq)]
pub enum Status {
    /// A job for a worker, or a result for a client.
    Success,
    /// The completion was delivered.
    Accepted,
    /// The completion names no request id.
    BadRequest,
    /// No response is pending under the id of the completion.
    NotFound,
    /// The request is none of the broker's operations.
    MethodNotAllowed,
    /// No worker is there to take the job.
    NotAcceptable,
    /// The broker could not do its part.
    InternalServerError,
}

impl Status {
    /// The numeric code of the status.
    pub open spec fn code_of(self) -> u16 {
        match self {
            Status::Success => 200,
            Status::Accepted => 202,
            Status::BadRequest => 400,
            Status::NotFound => 404,
            Status::MethodNotAllowed => 405,
            Status::NotAcceptable => 406,
            Status::InternalServerError => 500,
        }
    }

    /// The numeric code of the status.
    #[verifier::when_used_as_spec(code_of)]
    pub fn code(self) -> (code: u16)
        ensures
            code == self.code_of(),
    {
        match self {
            Status::Success => 200,
            Status::Accepted => 202,
            Status::BadRequest => 400,
            Status::NotFound => 404,
            Status::MethodNotAllowed => 405,
            Status::NotAcceptable => 406,
            Status::InternalServerError => 500,
        }
    }
}

/// The character of the decimal digit `d`.
pub open spec fn digit(d: int) -> char {
    (0x30 + d) as u8 as char
}

/// The three decimal digits of a number below 1000.
pub open spec fn three_digits(n: u16) -> Seq<char> {
    seq![digit(n as int / 100), digit(n as int / 10 % 10), digit(n as int % 10)]
}

impl Status {
    /// The status as text: the three decimal digits of its code.
    pub open spec fn text_of(self) -> Seq<char> {
        three_digits(self.code_of())
    }

    /// The status as text: the three decimal digits of its code.
    pub fn text(self) -> (text: &'static str)
        ensures
            text@ == self.text_of(),
    {
        proof {
            reveal_strlit("200");
            reveal_strlit("202");
            reveal_strlit("400");
            reveal_strlit("404");
            reveal_strlit("405");
            reveal_strlit("406");
            reveal_strlit("500");
        }
        let text = match self {
            Status::Success => "200",
            Status::Accepted => "202",
            Status::BadRequest => "400",
            Status::NotFound => "404",
            Status::MethodNotAllowed => "405",
            Status::NotAcceptable => "406",
            Status::InternalServerError => "500",
        };
        assert(text@ =~= self.text_of());
        text
    }
}

/// A job on its way to a worker: the id under which its result is expected,
/// and the payload, which the broker never looks into.
#[derive(Debug, PartialEq, Eq)]
pub struct Job<P> {
    pub id: RequestId,
    pub payload: P,
}

/// A response: its status, the request id it carries if any, and its body if
/// it has one.
#[derive(Debug, PartialEq, Eq)]
pub struct Response<P> {
    pub status: Status,
    pub request_id: Option<RequestId>,
    pub body: Option<P>,
}

impl<P> Job<P> {
    /// The job with the payload `payload`, whose result is expected under
    /// `id`.
    pub fn new(id: RequestId, payload: P) -> (job: Job<P>)
        ensures
            job.id == id,
            job.payload == payload,
    {
        Job { id, payload }
    }
}

impl<P> Response<P> {
    /// The response with the given status and nothing else.
    pub open spec fn empty_of(status: Status) -> Response<P> {
        Response { status, request_id: None, body: None }
    }

    /// The response with the given status and nothing else.
    #[verifier::when_used_as_spec(empty_of)]
    pub fn empty(status: Status) -> (response: Response<P>)
        ensures
            response == Response::<P>::empty_of(status),
    {
        Response { status, request_id: None, body: None }
    }

    /// The response by which a worker receives `job`: the payload as the body,
    /// under the id of the job.
    pub fn for_job(job: Job<P>) -> (response: Response<P>)
        ensures
            response == (Response {
                status: Status::Success,
                request_id: Some(job.id),
                body: Some(job.payload),
            }),
    {
        Response { status: Status::Success, request_id: Some(job.id), body: Some(job.payload) }
    }

    /// The response by which a client receives the result `body` of its job.
    pub open spec fn result_of(body: P) -> Response<P> {
        Response { status: Status::Success, request_id: None, body: Some(body) }
    }

    /// The response by which a client receives the result `body` of its job.
    #[verifier::when_used_as_spec(result_of)]
    pub fn for_result(body: P) -> (response: Response<P>)
        ensures
            response == Response::result_of(body),
    {
        Response { status: Status::Success, request_id: None, body: Some(body) }
    }
}

/// The operation that an inbound request asks for.
#[derive(Clone, Copy, Debug, PartialEq, Eq)]
pub enum Route {
    /// A worker asks for the next job.
    Next,
    /// A client submits a job.
    Submit,
    /// A worker completes a job.
    Complete,
    /// None of the broker's operations.
    Unknown,
}

/// The routing table: `GET /next`, `POST /` and `POST /response` are the three
/// operations, and everything else is unknown.
pub open spec fn route_of(method: Seq<char>, path: Seq<char>) -> Route {
    if method == "GET"@ && path == "/next"@ {
        Route::Next
    } else if method == "POST"@ && path == "/"@ {
        Route::Submit
    } else if method == "POST"@ && path == "/response"@ {
        Route::Complete
    } else {
        Route::Unknown
    }
}

/// Routes a request by its method and the path of its target.
pub fn route(method: &str, path: &str) -> (route: Route)
    ensures
        route == route_of(method@, path@),
{
    proof {
        reveal_strlit("GET");
        reveal_strlit("POST");
        assert("GET"@.len() != "POST"@.len());
    }
    if text_eq(method, "GET") {
        if text_eq(path, "/next") {
            Route::Next
        } else {
            Route::Unknown
        }
    } else if text_eq(method, "POST") {
        if text_eq(path, "/") {
            Route::Submit
        } else if text_eq(path, "/response") {
            Route::Complete
        } else {
            Route::Unknown
        }
    } else {
        Route::Unknown
    }
}

} // verus!
