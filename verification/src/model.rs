//! The broker as a state machine over plain values. The contracts of the
//! executable broker are stated over this model, and the laws of the protocol
//! are proved of it.
//!
//! A worker is named by its arrival number: the first worker that ever asked
//! for a job is worker 0, the next one worker 1, and so on. The model carries
//! the slots and the payloads along without looking into them: `W` is what a
//! waiting worker is reached through, `C` what a waiting client is reached
//! through, `P` the payload of a job, and `R` the response that carries a
//! result.
//!
//! Besides what the broker holds, the state keeps a record of every hand-off
//! that the broker has made, so that the contracts can say what a worker or a
//! client was offered.

use vstd::prelude::*;

verus! {

/// Whether `numbers` grows strictly from each entry to every later one.
pub open spec fn strictly_increasing(numbers: Seq<nat>) -> bool {
    forall|i: int, j: int| 0 <= i < j < numbers.len() ==> numbers[i] < numbers[j]
}

/// Whether every entry of `numbers` is below `bound`.
pub open spec fn all_below(numbers: Seq<nat>, bound: nat) -> bool {
    forall|i: int| 0 <= i < numbers.len() ==> numbers[i] < bound
}

/// How many workers at the head of `waiting` are in `gone`: the workers that a
/// submission drops from the queue when `gone` are the workers that have
/// abandoned their poll.
pub open spec fn dead_prefix<W>(waiting: Seq<(nat, W)>, gone: Set<nat>) -> nat
    decreases waiting.len(),
{
    if waiting.len() == 0 || !gone.contains(waiting[0].0) {
        0
    } else {
        1 + dead_prefix(waiting.skip(1), gone)
    }
}

/// One hand-off: what was offered under which id on which slot, and whether
/// it was taken.
pub struct Offer<S, V> {
    /// The request id under which the hand-off was made.
    pub id: Seq<u8>,
    /// The slot on which the value was offered.
    pub slot: S,
    /// What was offered.
    pub value: V,
    /// Whether the other side took it.
    pub taken: bool,
}

/// The hand-offs that fail when a job is offered to the first `n` workers of
/// `waiting` in turn and none of them takes it.
pub open spec fn refusals<W, P>(waiting: Seq<(nat, W)>, n: nat, id: Seq<u8>, payload: P) -> Seq<
    Offer<W, P>,
> {
    Seq::new(n, |i: int| Offer { id, slot: waiting[i].1, value: payload, taken: false })
}

/// What the broker holds between two calls, and what it has handed over so
/// far.
pub struct BrokerState<W, C, P, R> {
    /// The workers that wait for a job, oldest first: the arrival number of
    /// each, and its slot.
    pub waiting: Seq<(nat, W)>,
    /// How many workers have asked for a job so far.
    pub arrivals: nat,
    /// The jobs that a worker holds and has not completed: for the id of each,
    /// the slot of the client that waits for the result.
    pub pending: Map<Seq<u8>, C>,
    /// Every hand-off of a job to a worker so far, in the order in which they
    /// were made.
    pub jobs: Seq<Offer<W, P>>,
    /// Every hand-off of a response to a client so far, in the order in which
    /// they were made.
    pub results: Seq<Offer<C, R>>,
}

/// One call of the protocol, with what its outcome hangs on from outside.
pub enum Call<W, C, P, R> {
    /// A worker asks for the next job and waits on `slot`.
    Next { slot: W },
    /// A client submits the job `payload` under `id` and will wait on `reply`;
    /// the hand-off fails for the first `dead` workers in the queue.
    Submit { id: Seq<u8>, dead: nat, reply: C, payload: P },
    /// A worker completes the job `id` with `response`, which the client
    /// takes or not.
    Complete { id: Seq<u8>, response: R, taken: bool },
}

impl<W, C, P, R> BrokerState<W, C, P, R> {
    /// The state of a new broker.
    pub open spec fn initial() -> Self {
        BrokerState {
            waiting: Seq::empty(),
            arrivals: 0,
            pending: Map::empty(),
            jobs: Seq::empty(),
            results: Seq::empty(),
        }
    }

    /// The invariant of the state: the queue holds a worker at most once, in
    /// the order of arrival, and only workers that have arrived.
    pub open spec fn wf(self) -> bool {
        &&& forall|i: int, j: int|
            0 <= i < j < self.waiting.len() ==> self.waiting[i].0 < self.waiting[j].0
        &&& forall|i: int| 0 <= i < self.waiting.len() ==> self.waiting[i].0 < self.arrivals
    }

    /// The state after a worker has asked for the next job: the worker joins
    /// the queue at its tail, under the next arrival number.
    pub open spec fn next(self, slot: W) -> Self {
        BrokerState {
            waiting: self.waiting.push((self.arrivals, slot)),
            arrivals: self.arrivals + 1,
            ..self
        }
    }

    /// The state after a client has been registered to wait on `reply` for
    /// the result of the job `id`.
    pub open spec fn register(self, id: Seq<u8>, reply: C) -> Self {
        BrokerState { pending: self.pending.insert(id, reply), ..self }
    }

    /// The state after a submission that no worker took: the job was offered
    /// to every worker in the queue, in order, all of them are gone, and the
    /// queue is empty.
    pub open spec fn rejected(self, id: Seq<u8>, payload: P) -> Self {
        BrokerState {
            waiting: Seq::empty(),
            jobs: self.jobs + refusals(self.waiting, self.waiting.len(), id, payload),
            ..self
        }
    }

    /// The worker that a job submitted under `id` goes to, when the hand-off
    /// fails for the first `dead` workers of the queue and succeeds for the
    /// next one. There is none when `id` is already pending, and none when
    /// the queue has no more than `dead` workers.
    pub open spec fn assigned(self, id: Seq<u8>, dead: nat) -> Option<nat> {
        if self.pending.contains_key(id) || dead >= self.waiting.len() {
            None
        } else {
            Some(self.waiting[dead as int].0)
        }
    }

    /// The state after that submission of the job `payload`. An id that is
    /// already pending changes nothing. Otherwise the job is offered to the
    /// workers in order: the dead ones refuse it and leave the queue, the next
    /// one takes it and leaves the queue too, and the client then waits on
    /// `reply` for the result.
    pub open spec fn submit(self, id: Seq<u8>, dead: nat, reply: C, payload: P) -> Self {
        if self.pending.contains_key(id) {
            self
        } else if dead >= self.waiting.len() {
            self.rejected(id, payload)
        } else {
            BrokerState {
                waiting: self.waiting.skip(dead as int + 1),
                pending: self.pending.insert(id, reply),
                jobs: self.jobs + refusals(self.waiting, dead, id, payload).push(
                    Offer { id, slot: self.waiting[dead as int].1, value: payload, taken: true },
                ),
                ..self
            }
        }
    }

    /// Whether a completion of `id` finds a response pending.
    pub open spec fn completes(self, id: Seq<u8>) -> bool {
        self.pending.contains_key(id)
    }

    /// The state after a completion of `id` with `response`. If no response
    /// is pending under `id`, nothing changes. Otherwise the id is no longer
    /// pending, and `response` has been offered to the client that waited
    /// under it, who took it or not.
    pub open spec fn complete(self, id: Seq<u8>, response: R, taken: bool) -> Self {
        if self.pending.contains_key(id) {
            BrokerState {
                pending: self.pending.remove(id),
                results: self.results.push(
                    Offer { id, slot: self.pending[id], value: response, taken },
                ),
                ..self
            }
        } else {
            self
        }
    }

    /// The state after one call.
    pub open spec fn step(self, call: Call<W, C, P, R>) -> Self {
        match call {
            Call::Next { slot } => self.next(slot),
            Call::Submit { id, dead, reply, payload } => self.submit(id, dead, reply, payload),
            Call::Complete { id, response, taken } => self.complete(id, response, taken),
        }
    }

    /// The state after a sequence of calls.
    pub open spec fn run(self, calls: Seq<Call<W, C, P, R>>) -> Self
        decreases calls.len(),
    {
        if calls.len() == 0 {
            self
        } else {
            self.run(calls.drop_last()).step(calls.last())
        }
    }

    /// The workers that took a job in the course of `calls`, in the order in
    /// which they took it.
    pub open spec fn matched_in(self, calls: Seq<Call<W, C, P, R>>) -> Seq<nat>
        decreases calls.len(),
    {
        if calls.len() == 0 {
            Seq::empty()
        } else {
            let earlier = self.matched_in(calls.drop_last());
            match calls.last() {
                Call::Submit { id, dead, .. } => match self.run(calls.drop_last()).assigned(
                    id,
                    dead,
                ) {
                    Some(worker) => earlier.push(worker),
                    None => earlier,
                },
                _ => earlier,
            }
        }
    }

    /// How many submissions under `id` a worker took in the course of `calls`.
    pub open spec fn registered_in(self, calls: Seq<Call<W, C, P, R>>, id: Seq<u8>) -> nat
        decreases calls.len(),
    {
        if calls.len() == 0 {
            0
        } else {
            let earlier = self.registered_in(calls.drop_last(), id);
            match calls.last() {
                Call::Submit { id: submitted, dead, .. } => if submitted == id && self.run(
                    calls.drop_last(),
                ).assigned(id, dead) is Some {
                    earlier + 1
                } else {
                    earlier
                },
                _ => earlier,
            }
        }
    }

    /// How many completions of `id` found a response pending in the course of
    /// `calls`.
    pub open spec fn completed_in(self, calls: Seq<Call<W, C, P, R>>, id: Seq<u8>) -> nat
        decreases calls.len(),
    {
        if calls.len() == 0 {
            0
        } else {
            let earlier = self.completed_in(calls.drop_last(), id);
            match calls.last() {
                Call::Complete { id: completed, .. } => if completed == id && self.run(
                    calls.drop_last(),
                ).completes(id) {
                    earlier + 1
                } else {
                    earlier
                },
                _ => earlier,
            }
        }
    }
}

/// How many of `offers` were made under `id`.
pub open spec fn offers_under<S, V>(offers: Seq<Offer<S, V>>, id: Seq<u8>) -> nat
    decreases offers.len(),
{
    if offers.len() == 0 {
        0
    } else if offers.last().id == id {
        offers_under(offers.drop_last(), id) + 1
    } else {
        offers_under(offers.drop_last(), id)
    }
}

/// How many of `offers` were made under `id` and taken.
pub open spec fn taken_under<S, V>(offers: Seq<Offer<S, V>>, id: Seq<u8>) -> nat
    decreases offers.len(),
{
    if offers.len() == 0 {
        0
    } else if offers.last().id == id && offers.last().taken {
        taken_under(offers.drop_last(), id) + 1
    } else {
        taken_under(offers.drop_last(), id)
    }
}

} // verus!
