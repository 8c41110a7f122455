//! Laws of the protocol, proved of the model that the broker's contracts are
//! stated over.

use crate::model::{
    all_below, dead_prefix, offers_under, refusals, strictly_increasing, taken_under, BrokerState,
    Call, Offer,
};
use vstd::prelude::*;

verus! {

/// A new broker has the invariant of the state.
pub proof fn lemma_new_broker_has_invariant<W, C, P, R>()
    ensures
        BrokerState::<W, C, P, R>::initial().wf(),
{
}

/// Every call keeps the invariant of the state.
pub proof fn lemma_step_keeps_invariant<W, C, P, R>(state: BrokerState<W, C, P, R>, call: Call<W, C, P, R>)
    requires
        state.wf(),
    ensures
        state.step(call).wf(),
{
}

/// Every sequence of calls keeps the invariant of the state.
pub proof fn lemma_run_keeps_invariant<W, C, P, R>(state: BrokerState<W, C, P, R>, calls: Seq<Call<W, C, P, R>>)
    requires
        state.wf(),
    ensures
        state.run(calls).wf(),
    decreases calls.len(),
{
    if calls.len() > 0 {
        lemma_run_keeps_invariant(state, calls.drop_last());
        lemma_step_keeps_invariant(state.run(calls.drop_last()), calls.last());
    }
}

/// A completion is single-use: once a job has been completed, whether or not
/// a response was pending for it, a second completion of the same job finds
/// nothing, changes nothing and offers nothing to anybody.
pub proof fn lemma_completion_is_single_use<W, C, P, R>(
    state: BrokerState<W, C, P, R>,
    id: Seq<u8>,
    response: R,
    taken: bool,
    again: R,
    taken_again: bool,
)
    ensures
        !state.complete(id, response, taken).completes(id),
        state.complete(id, response, taken).complete(id, again, taken_again) == state.complete(
            id,
            response,
            taken,
        ),
{
}

/// A completion of an id that is not pending offers nothing to anybody and
/// changes nothing; a completion of a pending id offers the response to the
/// client that waits under the id, and to nobody else.
pub proof fn lemma_completion_serves_the_waiting_client<W, C, P, R>(
    state: BrokerState<W, C, P, R>,
    id: Seq<u8>,
    response: R,
    taken: bool,
)
    ensures
        !state.completes(id) ==> state.complete(id, response, taken) == state,
        state.completes(id) ==> state.complete(id, response, taken).results
            == state.results.push(
            Offer { id, slot: state.pending[id], value: response, taken },
        ),
        state.complete(id, response, taken).jobs == state.jobs,
        forall|other: Seq<u8>|
            other != id && state.completes(other) ==> #[trigger] state.complete(
                id,
                response,
                taken,
            ).pending[other] == state.pending[other],
{
}

/// A submission that a worker takes makes its id pending for the client that
/// submitted it, so that exactly one completion of it is accepted: the first
/// one is, its response is offered to that client, and the one after it is
/// not.
pub proof fn lemma_one_completion_per_submission<W, C, P, R>(
    state: BrokerState<W, C, P, R>,
    id: Seq<u8>,
    dead: nat,
    reply: C,
    payload: P,
    response: R,
    taken: bool,
)
    requires
        state.assigned(id, dead) is Some,
    ensures
        ({
            let submitted = state.submit(id, dead, reply, payload);
            let completed = submitted.complete(id, response, taken);
            &&& submitted.completes(id)
            &&& submitted.pending[id] == reply
            &&& completed.results == state.results.push(
                Offer { id, slot: reply, value: response, taken },
            )
            &&& !completed.completes(id)
        }),
{
}

/// A result reaches at most one client: while a response is pending under
/// `id`, a submission under `id` is refused, its job is offered to nobody, and
/// the client that waits under `id` stays the one it was.
pub proof fn lemma_pending_id_is_refused<W, C, P, R>(
    state: BrokerState<W, C, P, R>,
    id: Seq<u8>,
    dead: nat,
    reply: C,
    payload: P,
)
    requires
        state.completes(id),
    ensures
        state.assigned(id, dead) is None,
        state.submit(id, dead, reply, payload) == state,
{
}

/// What a submission under a free id hands over: the job, id and payload, is
/// offered to the workers from the head of the queue on, one after the other.
/// The first `dead` of them refuse it, the one after them takes it, and no
/// worker behind that one is offered anything. Nothing is offered to a
/// client.
pub proof fn lemma_submission_offers_the_job_in_order<W, C, P, R>(
    state: BrokerState<W, C, P, R>,
    id: Seq<u8>,
    dead: nat,
    reply: C,
    payload: P,
)
    requires
        !state.completes(id),
    ensures
        ({
            let after = state.submit(id, dead, reply, payload);
            let before = state.jobs.len() as int;
            let refused = if dead < state.waiting.len() {
                dead as int
            } else {
                state.waiting.len() as int
            };
            &&& after.results == state.results
            &&& after.jobs.subrange(0, before) == state.jobs
            &&& forall|i: int|
                0 <= i < refused ==> #[trigger] after.jobs[before + i] == (Offer {
                    id,
                    slot: state.waiting[i].1,
                    value: payload,
                    taken: false,
                })
            &&& if dead < state.waiting.len() {
                &&& after.jobs.len() == before + refused + 1
                &&& after.jobs[before + refused] == (Offer {
                    id,
                    slot: state.waiting[dead as int].1,
                    value: payload,
                    taken: true,
                })
            } else {
                after.jobs.len() == before + refused
            }
        }),
{
    let after = state.submit(id, dead, reply, payload);
    assert(after.jobs.subrange(0, state.jobs.len() as int) =~= state.jobs);
}

/// Over every sequence of calls, the submissions under `id` that a worker took
/// and the completions of `id` that were accepted balance: they differ by
/// whether a response is pending under `id` before and after.
pub proof fn lemma_completions_balance_submissions<W, C, P, R>(
    state: BrokerState<W, C, P, R>,
    calls: Seq<Call<W, C, P, R>>,
    id: Seq<u8>,
)
    ensures
        state.registered_in(calls, id) + (if state.completes(id) {
            1nat
        } else {
            0nat
        }) == state.completed_in(calls, id) + (if state.run(calls).completes(id) {
            1nat
        } else {
            0nat
        }),
    decreases calls.len(),
{
    if calls.len() > 0 {
        lemma_completions_balance_submissions(state, calls.drop_last(), id);
    }
}

/// From a new broker on, no id has more completions accepted than submissions
/// taken: every accepted completion answers a submission of its own.
pub proof fn lemma_no_completion_without_submission<W, C, P, R>(calls: Seq<Call<W, C, P, R>>, id: Seq<u8>)
    ensures
        BrokerState::<W, C, P, R>::initial().completed_in(calls, id) <= BrokerState::<W, C, P, R>::initial().registered_in(calls, id),
{
    lemma_completions_balance_submissions(BrokerState::<W, C, P, R>::initial(), calls, id);
}

/// What `dead_prefix` counts: the workers before that place are all gone, and
/// the worker at that place, if there is one, is not.
pub proof fn lemma_dead_prefix<W>(waiting: Seq<(nat, W)>, gone: Set<nat>)
    ensures
        dead_prefix(waiting, gone) <= waiting.len(),
        forall|i: int|
            0 <= i < dead_prefix(waiting, gone) ==> gone.contains((#[trigger] waiting[i]).0),
        dead_prefix(waiting, gone) < waiting.len() ==> !gone.contains(
            waiting[dead_prefix(waiting, gone) as int].0,
        ),
    decreases waiting.len(),
{
    if waiting.len() > 0 && gone.contains(waiting[0].0) {
        let rest = waiting.skip(1);
        lemma_dead_prefix(rest, gone);
        assert forall|i: int| 0 <= i < dead_prefix(waiting, gone) implies gone.contains(
            (#[trigger] waiting[i]).0,
        ) by {
            if i > 0 {
                assert(waiting[i] == rest[i - 1]);
            }
        }
    }
}

/// First in, first out, among the workers that are still there: when `gone`
/// are the workers that have abandoned their poll, a submission goes to the
/// worker that arrived first among those that have not, and fails only if
/// there is none. That worker is the one that is handed the job, its id and
/// its payload; the abandoned workers before it refuse the job and leave the
/// queue without a trace, and the workers after it keep their places and are
/// offered nothing.
pub proof fn lemma_oldest_live_worker_is_matched<W, C, P, R>(
    state: BrokerState<W, C, P, R>,
    id: Seq<u8>,
    reply: C,
    payload: P,
    gone: Set<nat>,
)
    requires
        state.wf(),
        !state.completes(id),
    ensures
        ({
            let dead = dead_prefix(state.waiting, gone);
            let after = state.submit(id, dead, reply, payload);
            &&& dead <= state.waiting.len()
            &&& forall|i: int| 0 <= i < dead ==> gone.contains((#[trigger] state.waiting[i]).0)
            &&& match state.assigned(id, dead) {
                Some(worker) => {
                    &&& !gone.contains(worker)
                    &&& worker == state.waiting[dead as int].0
                    &&& forall|i: int|
                        0 <= i < state.waiting.len() && !gone.contains(
                            (#[trigger] state.waiting[i]).0,
                        ) ==> worker <= state.waiting[i].0
                    &&& after.waiting == state.waiting.skip(dead as int + 1)
                    &&& forall|i: int|
                        0 <= i < after.waiting.len() ==> worker < (#[trigger] after.waiting[i]).0
                    &&& after.pending[id] == reply
                    &&& after.jobs == state.jobs + refusals(state.waiting, dead, id, payload).push(
                        Offer {
                            id,
                            slot: state.waiting[dead as int].1,
                            value: payload,
                            taken: true,
                        },
                    )
                },
                None => {
                    &&& dead == state.waiting.len()
                    &&& after.waiting.len() == 0
                    &&& after.pending == state.pending
                    &&& after.jobs == state.jobs + refusals(state.waiting, dead, id, payload)
                },
            }
        }),
{
    lemma_dead_prefix(state.waiting, gone);
}

/// Two workers ask for a job, the first on `first`, the second on `second`,
/// and one submission follows. While the first worker is still there, the job
/// does not go to the second. If nobody else is left in the queue before them
/// and the id is free, the job goes to the first: the first is handed the id
/// and the payload, the second is offered nothing and waits on as the head of
/// the queue.
pub proof fn lemma_first_come_first_served<W, C, P, R>(
    state: BrokerState<W, C, P, R>,
    first: W,
    second: W,
    id: Seq<u8>,
    reply: C,
    payload: P,
    gone: Set<nat>,
)
    requires
        state.wf(),
        !gone.contains(state.arrivals),
    ensures
        ({
            let both = state.next(first).next(second);
            let dead = dead_prefix(both.waiting, gone);
            let after = both.submit(id, dead, reply, payload);
            &&& both.assigned(id, dead) != Some(state.arrivals + 1)
            &&& !state.completes(id) ==> both.assigned(id, dead) is Some
            &&& !state.completes(id) && (forall|i: int|
                0 <= i < state.waiting.len() ==> gone.contains(state.waiting[i].0)) ==> {
                &&& both.assigned(id, dead) == Some(state.arrivals)
                &&& after.waiting == seq![(state.arrivals + 1, second)]
                &&& after.pending == state.pending.insert(id, reply)
                &&& after.jobs == state.jobs + refusals(
                    state.waiting,
                    state.waiting.len(),
                    id,
                    payload,
                ).push(Offer { id, slot: first, value: payload, taken: true })
            }
        }),
{
    let both = state.next(first).next(second);
    let dead = dead_prefix(both.waiting, gone);
    let n = state.waiting.len() as int;
    lemma_dead_prefix(both.waiting, gone);
    assert(both.waiting[n] == (state.arrivals, first));
    assert(both.waiting[n + 1] == (state.arrivals + 1, second));
    assert(dead <= n) by {
        if dead > n {
            assert(gone.contains(both.waiting[n].0));
        }
    }
    if forall|i: int| 0 <= i < state.waiting.len() ==> gone.contains(state.waiting[i].0) {
        assert(dead == n) by {
            if dead < n {
                assert(both.waiting[dead as int] == state.waiting[dead as int]);
            }
        }
        assert(both.waiting.skip(n + 1) =~= seq![(state.arrivals + 1, second)]);
        assert(refusals(both.waiting, dead, id, payload) =~= refusals(
            state.waiting,
            state.waiting.len(),
            id,
            payload,
        ));
    }
}

/// A worker asks for a job and abandons its poll, a second worker asks, and
/// one submission follows. If nobody else is left in the queue before them,
/// the job goes to the second worker: the submission succeeds, the second
/// worker is handed the id and the payload after the first has refused them,
/// and nothing of the first worker's abandonment shows but its absence from
/// the queue.
pub proof fn lemma_abandoned_worker_is_passed_over<W, C, P, R>(
    state: BrokerState<W, C, P, R>,
    first: W,
    second: W,
    id: Seq<u8>,
    reply: C,
    payload: P,
    gone: Set<nat>,
)
    requires
        state.wf(),
        !state.completes(id),
        forall|i: int| 0 <= i < state.waiting.len() ==> gone.contains(state.waiting[i].0),
        gone.contains(state.arrivals),
        !gone.contains(state.arrivals + 1),
    ensures
        ({
            let both = state.next(first).next(second);
            let dead = dead_prefix(both.waiting, gone);
            let after = both.submit(id, dead, reply, payload);
            &&& both.assigned(id, dead) == Some(state.arrivals + 1)
            &&& after.waiting.len() == 0
            &&& after.pending == state.pending.insert(id, reply)
            &&& after.jobs == state.jobs + refusals(
                state.waiting,
                state.waiting.len(),
                id,
                payload,
            ).push(Offer { id, slot: first, value: payload, taken: false }).push(
                Offer { id, slot: second, value: payload, taken: true },
            )
        }),
{
    let both = state.next(first).next(second);
    let dead = dead_prefix(both.waiting, gone);
    let n = state.waiting.len() as int;
    lemma_dead_prefix(both.waiting, gone);
    assert(both.waiting[n] == (state.arrivals, first));
    assert(both.waiting[n + 1] == (state.arrivals + 1, second));
    assert(dead == n + 1) by {
        if dead < n {
            assert(both.waiting[dead as int] == state.waiting[dead as int]);
        } else if dead > n + 1 {
            assert(gone.contains(both.waiting[n + 1].0));
        }
    }
    assert(refusals(both.waiting, dead, id, payload) =~= refusals(
        state.waiting,
        state.waiting.len(),
        id,
        payload,
    ).push(Offer { id, slot: first, value: payload, taken: false }));
}

/// Over every sequence of calls, jobs are taken in the order in which the
/// workers arrived: each worker that takes a job arrived after every worker
/// that took one before it, and before every worker that still waits. So no
/// worker takes two jobs for one poll.
pub proof fn lemma_jobs_are_taken_in_order_of_arrival<W, C, P, R>(
    state: BrokerState<W, C, P, R>,
    calls: Seq<Call<W, C, P, R>>,
)
    requires
        state.wf(),
    ensures
        strictly_increasing(state.matched_in(calls)),
        all_below(state.matched_in(calls), state.run(calls).arrivals),
        forall|i: int, j: int|
            0 <= i < state.matched_in(calls).len() && 0 <= j < state.run(calls).waiting.len()
                ==> #[trigger] state.matched_in(calls)[i] < (#[trigger] state.run(
                calls,
            ).waiting[j]).0,
    decreases calls.len(),
{
    if calls.len() > 0 {
        lemma_jobs_are_taken_in_order_of_arrival(state, calls.drop_last());
        lemma_run_keeps_invariant(state, calls.drop_last());
    }
}

/// Refused offers count for nothing among the offers taken.
proof fn lemma_refusals_are_not_taken<W, P>(
    offers: Seq<Offer<W, P>>,
    waiting: Seq<(nat, W)>,
    n: nat,
    under: Seq<u8>,
    payload: P,
    id: Seq<u8>,
)
    ensures
        taken_under(offers + refusals(waiting, n, under, payload), id) == taken_under(offers, id),
    decreases n,
{
    if n == 0 {
        assert(offers + refusals(waiting, n, under, payload) =~= offers);
    } else {
        let shorter = offers + refusals(waiting, (n - 1) as nat, under, payload);
        let longer = offers + refusals(waiting, n, under, payload);
        assert(longer.drop_last() =~= shorter);
        assert(!longer.last().taken);
        lemma_refusals_are_not_taken(offers, waiting, (n - 1) as nat, under, payload, id);
    }
}

/// Over every sequence of calls, the record of hand-offs and the calls agree
/// for every id: a job is taken by a worker once for each submission under
/// the id that a worker took, and a response is offered to a client once for
/// each completion of the id that found a response pending. So from a new
/// broker on, no result is offered to a client without a completion, and no
/// more results are offered under an id than jobs were taken under it.
pub proof fn lemma_hand_offs_follow_the_calls<W, C, P, R>(
    state: BrokerState<W, C, P, R>,
    calls: Seq<Call<W, C, P, R>>,
    id: Seq<u8>,
)
    ensures
        taken_under(state.run(calls).jobs, id) == taken_under(state.jobs, id)
            + state.registered_in(calls, id),
        offers_under(state.run(calls).results, id) == offers_under(state.results, id)
            + state.completed_in(calls, id),
    decreases calls.len(),
{
    if calls.len() > 0 {
        lemma_hand_offs_follow_the_calls(state, calls.drop_last(), id);
        let before = state.run(calls.drop_last());
        let after = before.step(calls.last());
        match calls.last() {
            Call::Next { .. } => {},
            Call::Submit { id: under, dead, reply, payload } => {
                if !before.completes(under) {
                    if dead < before.waiting.len() {
                        let refused = before.jobs + refusals(before.waiting, dead, under, payload);
                        assert(after.jobs.drop_last() =~= refused);
                        lemma_refusals_are_not_taken(
                            before.jobs,
                            before.waiting,
                            dead,
                            under,
                            payload,
                            id,
                        );
                    } else {
                        lemma_refusals_are_not_taken(
                            before.jobs,
                            before.waiting,
                            before.waiting.len(),
                            under,
                            payload,
                            id,
                        );
                    }
                }
            },
            Call::Complete { id: under, response, taken } => {
                if before.completes(under) {
                    assert(after.results.drop_last() =~= before.results);
                }
            },
        }
    }
}

} // verus!
