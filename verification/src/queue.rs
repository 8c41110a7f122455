//! The queue of waiting workers: first in, first out.

use crate::rendezvous::Producer;
use std::collections::VecDeque;
use vstd::prelude::*;

verus! {

/// One waiting worker: the producer half of its slot, and the number under
/// which it arrived.
#[verifier::reject_recursive_types(T)]
struct Waiting<T> {
    number: Ghost<nat>,
    producer: Producer<T>,
}

/// What `slots` stands for: the arrival number and the producer of each, in
/// order.
spec fn listing<T>(slots: Seq<Waiting<T>>) -> Seq<(nat, Producer<T>)> {
    Seq::new(slots.len(), |i: int| (slots[i].number@, slots[i].producer))
}

/// The workers that wait for a job, oldest first. Every worker that is ever
/// enqueued gets the next arrival number, counted from 0, so a number names one
/// worker for good.
#[verifier::reject_recursive_types(T)]
pub struct WorkerQueue<T> {
    slots: VecDeque<Waiting<T>>,
    arrivals: Ghost<nat>,
}

impl<T> View for WorkerQueue<T> {
    type V = Seq<(nat, Producer<T>)>;

    /// The waiting workers, oldest first: the arrival number of each, and the
    /// producer half of its slot.
    closed spec fn view(&self) -> Seq<(nat, Producer<T>)> {
        listing(self.slots@)
    }
}

impl<T> WorkerQueue<T> {
    /// How many workers have been enqueued so far.
    pub closed spec fn arrivals(&self) -> nat {
        self.arrivals@
    }

    /// What holds of every queue: a worker waits at most once, in the order of
    /// arrival, under a number that has been given out; and the length of the
    /// queue fits the machine.
    #[verifier::type_invariant]
    pub open spec fn ordered(&self) -> bool {
        &&& forall|i: int, j: int| 0 <= i < j < self@.len() ==> self@[i].0 < self@[j].0
        &&& forall|i: int| 0 <= i < self@.len() ==> self@[i].0 < self.arrivals()
        &&& self@.len() <= usize::MAX
    }

    /// The empty queue.
    pub fn new() -> (queue: WorkerQueue<T>)
        ensures
            queue@ == Seq::<(nat, Producer<T>)>::empty(),
            queue.arrivals() == 0,
    {
        let queue = WorkerQueue { slots: VecDeque::new(), arrivals: Ghost(0) };
        assert(queue@ =~= Seq::<(nat, Producer<T>)>::empty());
        queue
    }

    /// The number of waiting workers.
    pub fn len(&self) -> (n: usize)
        ensures
            n == self@.len(),
    {
        self.slots.len()
    }

    /// Appends a worker at the tail, under the next arrival number.
    pub fn enqueue(&mut self, producer: Producer<T>)
        ensures
            final(self)@ == old(self)@.push((old(self).arrivals(), producer)),
            final(self).arrivals() == old(self).arrivals() + 1,
    {
        proof {
            use_type_invariant(&*self);
        }
        let ghost number = self.arrivals@;
        let mut slots = VecDeque::new();
        std::mem::swap(&mut slots, &mut self.slots);
        slots.push_back(Waiting { number: Ghost(number), producer });
        proof {
            vstd::std_specs::vecdeque::axiom_spec_len(&slots);
            assert(listing(slots@) =~= old(self)@.push((number, producer)));
        }
        *self = WorkerQueue { slots, arrivals: Ghost(number + 1) };
    }

    /// Removes and returns the worker at the head, if there is one.
    pub fn dequeue(&mut self) -> (head: Option<Producer<T>>)
        ensures
            final(self).arrivals() == old(self).arrivals(),
            match head {
                Some(producer) => {
                    &&& old(self)@.len() > 0
                    &&& producer == old(self)@[0].1
                    &&& final(self)@ == old(self)@.skip(1)
                },
                None => old(self)@.len() == 0 && final(self)@ == old(self)@,
            },
    {
        proof {
            use_type_invariant(&*self);
        }
        let ghost arrivals = self.arrivals@;
        let mut slots = VecDeque::new();
        std::mem::swap(&mut slots, &mut self.slots);
        let head = slots.pop_front();
        proof {
            if head is Some {
                assert(listing(slots@) =~= old(self)@.skip(1));
            } else {
                assert(listing(slots@) =~= old(self)@);
            }
        }
        *self = WorkerQueue { slots, arrivals: Ghost(arrivals) };
        match head {
            Some(waiting) => Some(waiting.producer),
            None => None,
        }
    }
}

} // verus!
