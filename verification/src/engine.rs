//! The matching engine: it pairs waiting workers with submitted jobs and
//! routes each result back to the client that waits for it.

use crate::ident::{is_random_uuid_text, RequestId};
use crate::message::{route, route_of, Job, Response, Route, Status};
use crate::model::{refusals, BrokerState, Offer};
use crate::outcome::{
    completion_status, delivery_outcome, CompleteError, Matched, Reply, Round, SubmitError,
};
use crate::queue::WorkerQueue;
use crate::rendezvous::{slot, Consumer, Producer};
use crate::table::ResponseTable;
use vstd::prelude::*;

verus! {

/// The state of a broker, as its contracts see it: the model, with the
/// producer halves of the slots on which the workers and the clients wait,
/// the payloads of the jobs, and the responses that carry the results.
pub type State<P> = BrokerState<Producer<Job<P>>, Producer<Response<P>>, P, Response<P>>;

/// The broker: the queue of waiting workers and the table of pending
/// responses, with the record of what it has handed over.
#[verifier::reject_recursive_types(P)]
pub struct Broker<P> {
    workers: WorkerQueue<Job<P>>,
    replies: ResponseTable<Response<P>>,
    jobs: Ghost<Seq<Offer<Producer<Job<P>>, P>>>,
    results: Ghost<Seq<Offer<Producer<Response<P>>, Response<P>>>>,
}

impl<P> View for Broker<P> {
    type V = State<P>;

    closed spec fn view(&self) -> State<P> {
        BrokerState {
            waiting: self.workers@,
            arrivals: self.workers.arrivals(),
            pending: self.replies@,
            jobs: self.jobs@,
            results: self.results@,
        }
    }
}

impl<P> Broker<P> {
    /// A broker with no worker waiting, no response pending and nothing
    /// handed over.
    pub fn new() -> (broker: Broker<P>)
        ensures
            broker@ == State::<P>::initial(),
    {
        Broker {
            workers: WorkerQueue::new(),
            replies: ResponseTable::new(),
            jobs: Ghost(Seq::empty()),
            results: Ghost(Seq::empty()),
        }
    }

    /// The answer that is ready at once: a response with `status` and nothing
    /// else.
    pub fn empty(&self, status: Status) -> (reply: Reply<P>)
        ensures
            reply == Reply::Now(Response::<P>::empty_of(status)),
    {
        Reply::Now(Response::empty(status))
    }

    /// A worker asks for the next job. The worker joins the queue at its tail,
    /// under the next arrival number; the job will arrive at the consumer
    /// returned. When the worker abandons the consumer, a later hand-off to it
    /// fails and the worker is dropped from the queue.
    pub fn next(&mut self) -> (poll: Consumer<Job<P>>)
        ensures
            final(self)@ == old(self)@.next(poll.peer()),
            final(self)@.wf(),
    {
        let (producer, consumer) = slot();
        self.workers.enqueue(producer);
        proof {
            use_type_invariant(&self.workers);
        }
        consumer
    }

    /// Offers `job` to `worker` and puts the hand-off on record: to whom, under
    /// which id, with which payload, and whether the worker took it. A job
    /// that is not taken comes back.
    fn hand_over(&mut self, worker: Producer<Job<P>>, job: Job<P>) -> (sent: Result<(), Job<P>>)
        ensures
            final(self)@ == (BrokerState {
                jobs: old(self)@.jobs.push(
                    Offer { id: job.id@, slot: worker, value: job.payload, taken: sent is Ok },
                ),
                ..old(self)@
            }),
            sent matches Err(back) ==> back == job,
    {
        let ghost id = job.id@;
        let ghost payload = job.payload;
        let sent = worker.send(job);
        self.jobs = Ghost(
            self.jobs@.push(Offer { id, slot: worker, value: payload, taken: sent is Ok }),
        );
        sent
    }

    /// Offers `response` to `client`, who waited for it under `id`, and puts
    /// the hand-off on record: to whom, under which id, what, and whether the
    /// client took it.
    fn deliver(&mut self, id: &RequestId, client: Producer<Response<P>>, response: Response<P>) -> (sent:
        Result<(), Response<P>>)
        ensures
            final(self)@ == (BrokerState {
                results: old(self)@.results.push(
                    Offer { id: id@, slot: client, value: response, taken: sent is Ok },
                ),
                ..old(self)@
            }),
            sent matches Err(back) ==> back == response,
    {
        let sent = client.send(response);
        self.results = Ghost(
            self.results@.push(Offer { id: id@, slot: client, value: response, taken: sent is Ok }),
        );
        sent
    }

    /// Concludes one attempt to hand a job to a worker, of which `offer` is
    /// the outcome. If the job came back, it is returned for the next attempt
    /// and nothing changes. If the worker took it, a slot for the response is
    /// registered under `id` and the submission is matched, with `discarded`
    /// as the number of workers dropped on the way; unless a response is
    /// already pending under `id`, which is left as it is.
    pub fn conclude(&mut self, id: &RequestId, discarded: usize, offer: Result<(), Job<P>>) -> (round:
        Round<P>)
        ensures
            match offer {
                Err(job) => round == Round::Again(job) && final(self)@ == old(self)@,
                Ok(()) => if old(self)@.completes(id@) {
                    &&& round matches Round::Settled(Err(SubmitError::IdInUse))
                    &&& final(self)@ == old(self)@
                } else {
                    &&& round matches Round::Settled(Ok(matched))
                    &&& matched.id@ == id@
                    &&& matched.discarded == discarded
                    &&& final(self)@ == old(self)@.register(id@, matched.reply.peer())
                },
            },
    {
        match offer {
            Err(job) => Round::Again(job),
            Ok(()) => {
                let (producer, consumer) = slot();
                match self.replies.insert(id.clone(), producer) {
                    Ok(()) => Round::Settled(
                        Ok(Matched { id: id.clone(), reply: consumer, discarded }),
                    ),
                    Err(_) => Round::Settled(Err(SubmitError::IdInUse)),
                }
            },
        }
    }

    /// A client submits the job `body` under `id`.
    ///
    /// If a response is already pending under `id`, the job is refused and
    /// nothing changes. Otherwise the job, `id` with `body`, is offered to the
    /// workers in the order of their arrival, until one takes it. Every worker
    /// that does not is abandoned and leaves the queue; their number is
    /// reported as `discarded`. With the job taken, a slot for the response is
    /// registered under `id`, and its consumer half is returned. With the
    /// queue used up, the submission fails.
    pub fn request_as(&mut self, id: RequestId, body: P) -> (r: Result<Matched<P>, SubmitError>)
        ensures
            final(self)@.wf(),
            match r {
                Ok(matched) => {
                    &&& matched.id@ == id@
                    &&& old(self)@.assigned(id@, matched.discarded as nat) is Some
                    &&& final(self)@ == old(self)@.submit(
                        id@,
                        matched.discarded as nat,
                        matched.reply.peer(),
                        body,
                    )
                },
                Err(SubmitError::NoWorkerAvailable { discarded }) => {
                    &&& !old(self)@.completes(id@)
                    &&& discarded == old(self)@.waiting.len()
                    &&& final(self)@ == old(self)@.rejected(id@, body)
                },
                Err(SubmitError::IdInUse) => old(self)@.completes(id@) && final(self)@ == old(
                    self,
                )@,
            },
    {
        proof {
            use_type_invariant(&self.workers);
        }
        if self.replies.contains(&id) {
            return Err(SubmitError::IdInUse);
        }
        let mut job = Job::new(id.clone(), body);
        let mut discarded: usize = 0;
        assert(self@.jobs =~= old(self)@.jobs + refusals(old(self)@.waiting, 0, id@, body));
        assert(self@.waiting =~= old(self)@.waiting.skip(0));
        loop
            invariant
                self@ == (BrokerState {
                    waiting: old(self)@.waiting.skip(discarded as int),
                    jobs: old(self)@.jobs + refusals(
                        old(self)@.waiting,
                        discarded as nat,
                        id@,
                        body,
                    ),
                    ..old(self)@
                }),
                discarded <= old(self)@.waiting.len() <= usize::MAX,
                !old(self)@.completes(id@),
                old(self)@.wf(),
                job.id@ == id@,
                job.payload == body,
            decreases self@.waiting.len(),
        {
            match self.workers.dequeue() {
                None => {
                    assert(self@.waiting =~= Seq::empty());
                    return Err(SubmitError::NoWorkerAvailable { discarded });
                },
                Some(worker) => {
                    let offer = self.hand_over(worker, job);
                    proof {
                        let before = old(self)@;
                        assert(self@.waiting =~= before.waiting.skip(discarded + 1));
                        assert(self@.jobs =~= before.jobs + refusals(
                            before.waiting,
                            discarded as nat,
                            id@,
                            body,
                        ).push(
                            Offer {
                                id: id@,
                                slot: before.waiting[discarded as int].1,
                                value: body,
                                taken: offer is Ok,
                            },
                        ));
                        assert(refusals(before.waiting, (discarded + 1) as nat, id@, body)
                            =~= refusals(before.waiting, discarded as nat, id@, body).push(
                            Offer {
                                id: id@,
                                slot: before.waiting[discarded as int].1,
                                value: body,
                                taken: false,
                            },
                        ));
                    }
                    match self.conclude(&id, discarded, offer) {
                        Round::Settled(r) => {
                            proof {
                                use_type_invariant(&self.workers);
                            }
                            return r;
                        },
                        Round::Again(back) => {
                            job = back;
                            discarded += 1;
                        },
                    }
                },
            }
        }
    }

    /// A client submits the job `body`. The broker mints the id, a random UUID
    /// in text form, and goes on as `request_as` does.
    pub fn request(&mut self, body: P) -> (r: Result<Matched<P>, SubmitError>)
        ensures
            final(self)@.wf(),
            match r {
                Ok(matched) => {
                    &&& is_random_uuid_text(matched.id@)
                    &&& old(self)@.assigned(matched.id@, matched.discarded as nat) is Some
                    &&& final(self)@ == old(self)@.submit(
                        matched.id@,
                        matched.discarded as nat,
                        matched.reply.peer(),
                        body,
                    )
                },
                Err(SubmitError::NoWorkerAvailable { discarded }) => {
                    &&& discarded == old(self)@.waiting.len()
                    &&& exists|id: Seq<u8>|
                        {
                            &&& is_random_uuid_text(id)
                            &&& !old(self)@.completes(id)
                            &&& final(self)@ == #[trigger] old(self)@.rejected(id, body)
                        }
                },
                Err(SubmitError::IdInUse) => {
                    &&& final(self)@ == old(self)@
                    &&& exists|id: Seq<u8>|
                        is_random_uuid_text(id) && #[trigger] old(self)@.completes(id)
                },
            },
    {
        self.request_as(RequestId::fresh(), body)
    }

    /// A worker completes the job `id` with the result `body`.
    ///
    /// The response pending under `id` is taken out of the table, so that a
    /// second completion of the same job finds nothing. The result is then
    /// offered, as a response, to the slot of the client that waited under
    /// `id`: the completion succeeds if it is taken, and fails with an
    /// internal error if the client is gone.
    pub fn response(&mut self, id: &RequestId, body: P) -> (r: Result<(), CompleteError>)
        ensures
            final(self)@ == old(self)@.complete(id@, Response::result_of(body), r is Ok),
            final(self)@.wf(),
            r matches Err(CompleteError::NotFound) <==> !old(self)@.completes(id@),
    {
        proof {
            use_type_invariant(&self.workers);
        }
        match self.replies.remove(id) {
            None => {
                assert(self@.pending =~= old(self)@.pending);
                Err(CompleteError::NotFound)
            },
            Some(client) => {
                let offer = self.deliver(id, client, Response::for_result(body));
                delivery_outcome(offer)
            },
        }
    }

    /// Answers an inbound request: `method` and `path` select the operation,
    /// `request_id` is the value of the request id header if there is one, and
    /// `body` is the payload.
    pub fn dispatch(
        &mut self,
        method: &str,
        path: &str,
        request_id: Option<RequestId>,
        body: P,
    ) -> (reply: Reply<P>)
        ensures
            final(self)@.wf(),
            route_of(method@, path@) is Next ==> {
                &&& reply matches Reply::OnJob(poll)
                &&& final(self)@ == old(self)@.next(poll.peer())
            },
            route_of(method@, path@) is Submit ==> match reply {
                Reply::OnResult(matched) => {
                    &&& is_random_uuid_text(matched.id@)
                    &&& old(self)@.assigned(matched.id@, matched.discarded as nat) is Some
                    &&& final(self)@ == old(self)@.submit(
                        matched.id@,
                        matched.discarded as nat,
                        matched.reply.peer(),
                        body,
                    )
                },
                Reply::Now(response) => {
                    ||| {
                        &&& response == Response::<P>::empty_of(Status::NotAcceptable)
                        &&& exists|id: Seq<u8>|
                            {
                                &&& is_random_uuid_text(id)
                                &&& !old(self)@.completes(id)
                                &&& final(self)@ == #[trigger] old(self)@.rejected(id, body)
                            }
                    }
                    ||| {
                        &&& response == Response::<P>::empty_of(Status::InternalServerError)
                        &&& final(self)@ == old(self)@
                        &&& exists|id: Seq<u8>|
                            is_random_uuid_text(id) && #[trigger] old(self)@.completes(id)
                    }
                },
                Reply::OnJob(_) => false,
            },
            route_of(method@, path@) is Complete ==> match request_id {
                Some(id) => {
                    &&& reply matches Reply::Now(response)
                    &&& (response == Response::<P>::empty_of(Status::Accepted) || response
                        == Response::<P>::empty_of(Status::NotFound) || response
                        == Response::<P>::empty_of(Status::InternalServerError))
                    &&& response.status == Status::NotFound <==> !old(self)@.completes(id@)
                    &&& final(self)@ == old(self)@.complete(
                        id@,
                        Response::result_of(body),
                        response.status == Status::Accepted,
                    )
                },
                None => {
                    &&& reply == Reply::Now(Response::<P>::empty_of(Status::BadRequest))
                    &&& final(self)@ == old(self)@
                },
            },
            route_of(method@, path@) is Unknown ==> {
                &&& reply == Reply::Now(Response::<P>::empty_of(Status::MethodNotAllowed))
                &&& final(self)@ == old(self)@
            },
    {
        proof {
            use_type_invariant(&self.workers);
        }
        match route(method, path) {
            Route::Next => Reply::OnJob(self.next()),
            Route::Submit => match self.request(body) {
                Ok(matched) => Reply::OnResult(matched),
                Err(error) => self.empty(error.status()),
            },
            Route::Complete => match request_id {
                Some(id) => {
                    let outcome = self.response(&id, body);
                    self.empty(completion_status(outcome))
                },
                None => self.empty(Status::BadRequest),
            },
            Route::Unknown => self.empty(Status::MethodNotAllowed),
        }
    }
}

} // verus!
