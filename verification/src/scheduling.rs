//! Round-robin rotation over the configured workers, and the scheduler that
//! sends one message to each worker in turn.

use vstd::prelude::*;
use vstd::arithmetic::div_mod::{lemma_add_mod_noop_right, lemma_small_mod, lemma_mod_self_0};
use crate::message::Message;

verus! {

/// The index after `index` in a rotation over `count` items: the next one,
/// or the first after the last.
pub open spec fn next_index(index: nat, count: nat) -> nat {
    if index + 1 >= count {
        0
    } else {
        index + 1
    }
}

/// The index reached from `start` after `steps` turns of a rotation over
/// `count` items.
pub open spec fn index_after(start: nat, steps: nat, count: nat) -> nat
    decreases steps,
{
    if steps == 0 {
        start
    } else {
        next_index(index_after(start, (steps - 1) as nat, count), count)
    }
}

/// A cursor that visits the workers of a list one after another, forever.
#[derive(Debug)]
pub struct RoundRobin {
    workers: Vec<String>,
    worker_index: usize,
}

impl RoundRobin {
    /// The addresses the rotation goes over, in order.
    pub closed spec fn workers(&self) -> Seq<String> {
        self.workers@
    }

    /// The index of the worker whose turn it is.
    pub closed spec fn index(&self) -> nat {
        self.worker_index as nat
    }

    /// The rotation's invariant: there is a worker, and the cursor is on one.
    pub open spec fn wf(&self) -> bool {
        self.index() < self.workers().len()
    }

    /// A rotation over `workers` that starts with the first of them; there
    /// is no rotation over an empty list.
    pub fn new(workers: Vec<String>) -> (rotation: Option<RoundRobin>)
        ensures
            match rotation {
                Some(rotation) => workers@.len() > 0 && rotation.wf() && rotation.workers()
                    == workers@ && rotation.index() == 0,
                None => workers@.len() == 0,
            },
    {
        if workers.len() == 0 {
            None
        } else {
            Some(RoundRobin { workers, worker_index: 0 })
        }
    }

    /// The number of workers.
    pub fn len(&self) -> (count: usize)
        ensures
            count == self.workers().len(),
    {
        self.workers.len()
    }

    /// The index of the worker whose turn it is.
    pub fn position(&self) -> (index: usize)
        ensures
            index == self.index(),
    {
        self.worker_index
    }

    /// The address of the worker whose turn it is.
    pub fn current(&self) -> (worker: &String)
        requires
            self.wf(),
        ensures
            *worker == self.workers()[self.index() as int],
    {
        &self.workers[self.worker_index]
    }

    /// Passes the turn to the next worker; after the last comes the first.
    pub fn advance(&mut self)
        requires
            old(self).wf(),
        ensures
            final(self).wf(),
            final(self).workers() == old(self).workers(),
            final(self).index() == next_index(old(self).index(), old(self).workers().len()),
            final(self).index() == (old(self).index() + 1) % old(self).workers().len(),
    {
        let count: usize = self.workers.len();
        proof {
            lemma_next_index(self.worker_index as nat, count as nat);
        }
        self.worker_index = (self.worker_index + 1) % count;
    }
}

/// What the scheduler does with the worker whose turn it was.
#[derive(Debug)]
pub enum Dispatch {
    /// The worker was reached: write this text to it and flush.
    Send(String),
    /// The worker was not reached: it gets nothing this time round.
    Skip,
}

/// Sends one message to each worker in turn, again and again.
#[derive(Debug)]
pub struct Scheduler {
    rotation: RoundRobin,
    message: Message,
}

impl Scheduler {
    /// The rotation over the workers.
    pub closed spec fn rotation(&self) -> RoundRobin {
        self.rotation
    }

    /// The message that every worker is sent.
    pub closed spec fn message(&self) -> Message {
        self.message
    }

    /// The scheduler's invariant.
    pub open spec fn wf(&self) -> bool {
        self.rotation().wf()
    }

    /// The address to connect to next.
    pub fn target(&self) -> (worker: &String)
        requires
            self.wf(),
        ensures
            *worker == self.rotation().workers()[self.rotation().index() as int],
    {
        self.rotation.current()
    }

    /// Takes the outcome of the connection attempt to the current target:
    /// a worker that was reached is sent the message, one that was not is
    /// skipped. Either way the turn passes to the next worker.
    pub fn step(&mut self, connected: bool) -> (dispatch: Dispatch)
        requires
            old(self).wf(),
        ensures
            final(self).wf(),
            final(self).message() == old(self).message(),
            final(self).rotation().workers() == old(self).rotation().workers(),
            final(self).rotation().index() == next_index(
                old(self).rotation().index(),
                old(self).rotation().workers().len(),
            ),
            match dispatch {
                Dispatch::Send(payload) => connected && payload@ == old(self).message().message@,
                Dispatch::Skip => !connected,
            },
    {
        self.rotation.advance();
        if connected {
            Dispatch::Send(self.message.message.clone())
        } else {
            Dispatch::Skip
        }
    }
}

/// Sets up the round-robin delivery of `message` to `workers`, beginning
/// with the first of them. Without workers there is nothing to schedule.
pub fn round_robin_scheduler(workers: Vec<String>, message: Message) -> (scheduler: Option<
    Scheduler,
>)
    ensures
        match scheduler {
            Some(scheduler) => workers@.len() > 0 && scheduler.wf() && scheduler.message()
                == message && scheduler.rotation().workers() == workers@
                && scheduler.rotation().index() == 0,
            None => workers@.len() == 0,
        },
{
    match RoundRobin::new(workers) {
        Some(rotation) => Some(Scheduler { rotation, message }),
        None => None,
    }
}

/// The next index is the successor modulo the number of items.
pub proof fn lemma_next_index(index: nat, count: nat)
    requires
        index < count,
    ensures
        next_index(index, count) == (index + 1) % count,
{
    if index + 1 == count {
        lemma_mod_self_0(count as int);
    } else {
        lemma_small_mod(index + 1, count);
    }
}

/// A rotation that has taken `steps` turns from `start` stands at
/// `(start + steps) % count`.
pub proof fn lemma_index_after(start: nat, steps: nat, count: nat)
    requires
        start < count,
    ensures
        index_after(start, steps, count) == (start + steps) % count,
    decreases steps,
{
    if steps == 0 {
        lemma_small_mod(start, count);
    } else {
        lemma_index_after(start, (steps - 1) as nat, count);
        let before = index_after(start, (steps - 1) as nat, count);
        lemma_next_index(before, count);
        lemma_add_mod_noop_right(1, start + steps - 1, count as int);
    }
}

/// One full cycle visits every worker exactly once, in the order of the
/// list, and ends where it began: from the first worker, the `k`-th turn
/// (for `k` below the number of workers) falls to worker `k`, and after as
/// many turns as there are workers the first worker is up again.
pub proof fn lemma_full_cycle_in_order(count: nat, k: nat)
    requires
        k < count,
    ensures
        index_after(0, k, count) == k,
        index_after(0, count, count) == 0,
{
    lemma_index_after(0, k, count);
    lemma_small_mod(k, count);
    lemma_index_after(0, count, count);
    lemma_mod_self_0(count as int);
}

} // verus!
