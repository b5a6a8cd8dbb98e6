//! The job queue shared by the workers of a pool: first in, first out, with
//! a close that lets the queue drain before workers are told to stop.

use std::collections::VecDeque;
use vstd::prelude::*;
use crate::worker::Received;

verus! {

/// An unbounded FIFO of jobs with an open/closed flag.
///
/// Besides the jobs still waiting, the queue remembers (in ghost state) every
/// job it ever accepted and every job it ever handed out, so that its
/// contracts can say that no job is lost or handed out twice.
pub struct JobQueue<J> {
    pending: VecDeque<J>,
    open: bool,
    accepted: Ghost<Seq<J>>,
    delivered: Ghost<Seq<J>>,
}

impl<J> JobQueue<J> {
    /// The jobs waiting to be received, oldest first.
    pub closed spec fn pending(&self) -> Seq<J> {
        self.pending@
    }

    /// Whether the queue still accepts jobs.
    pub closed spec fn open(&self) -> bool {
        self.open
    }

    /// Every job the queue has accepted so far, in order of submission.
    pub closed spec fn accepted(&self) -> Seq<J> {
        self.accepted@
    }

    /// Every job the queue has handed to a worker so far, in order of receipt.
    pub closed spec fn delivered(&self) -> Seq<J> {
        self.delivered@
    }

    /// The queue's invariant: what was accepted is what was delivered
    /// followed by what is still pending.
    pub closed spec fn wf(&self) -> bool {
        self.accepted@ == self.delivered@ + self.pending@
    }

    /// An open queue that has seen no job.
    pub fn new() -> (queue: JobQueue<J>)
        ensures
            queue.wf(),
            queue.open(),
            queue.pending() == Seq::<J>::empty(),
            queue.accepted() == Seq::<J>::empty(),
            queue.delivered() == Seq::<J>::empty(),
    {
        JobQueue {
            pending: VecDeque::new(),
            open: true,
            accepted: Ghost(Seq::empty()),
            delivered: Ghost(Seq::empty()),
        }
    }

    /// Whether the queue still accepts jobs.
    pub fn is_open(&self) -> (open: bool)
        ensures
            open == self.open(),
    {
        self.open
    }

    /// The number of jobs waiting.
    pub fn len(&self) -> (len: usize)
        ensures
            len == self.pending().len(),
    {
        self.pending.len()
    }

    /// Appends `job` to an open queue; a closed queue hands it back.
    pub fn push(&mut self, job: J) -> (outcome: Result<(), J>)
        requires
            old(self).wf(),
        ensures
            final(self).wf(),
            final(self).open() == old(self).open(),
            final(self).delivered() == old(self).delivered(),
            old(self).open() ==> outcome is Ok
                && final(self).pending() == old(self).pending().push(job)
                && final(self).accepted() == old(self).accepted().push(job),
            !old(self).open() ==> outcome == Err::<(), J>(job)
                && final(self).pending() == old(self).pending()
                && final(self).accepted() == old(self).accepted(),
    {
        if self.open {
            self.pending.push_back(job);
            self.accepted = Ghost(self.accepted@.push(job));
            assert(self.accepted@ =~= self.delivered@ + self.pending@);
            Ok(())
        } else {
            Err(job)
        }
    }

    /// Takes the oldest waiting job. A queue with nothing waiting answers
    /// `Empty` while it is open and `Disconnected` once it is closed, so
    /// every job accepted before the close is still handed out.
    pub fn pop(&mut self) -> (received: Received<J>)
        requires
            old(self).wf(),
        ensures
            final(self).wf(),
            final(self).open() == old(self).open(),
            final(self).accepted() == old(self).accepted(),
            match received {
                Received::Job(job) => old(self).pending().len() > 0
                    && job == old(self).pending()[0]
                    && final(self).pending() == old(self).pending().drop_first()
                    && final(self).delivered() == old(self).delivered().push(job),
                Received::Empty => old(self).pending().len() == 0 && old(self).open()
                    && final(self).pending() == old(self).pending()
                    && final(self).delivered() == old(self).delivered(),
                Received::Disconnected => old(self).pending().len() == 0 && !old(self).open()
                    && final(self).pending() == old(self).pending()
                    && final(self).delivered() == old(self).delivered(),
                Received::Poisoned(_) => false,
            },
    {
        match self.pending.pop_front() {
            Some(job) => {
                self.delivered = Ghost(self.delivered@.push(job));
                assert(self.accepted@ =~= self.delivered@ + self.pending@);
                Received::Job(job)
            },
            None => {
                if self.open {
                    Received::Empty
                } else {
                    Received::Disconnected
                }
            },
        }
    }

    /// Closes the queue. Jobs already waiting stay; later pushes are refused.
    pub fn close(&mut self)
        requires
            old(self).wf(),
        ensures
            final(self).wf(),
            !final(self).open(),
            final(self).pending() == old(self).pending(),
            final(self).accepted() == old(self).accepted(),
            final(self).delivered() == old(self).delivered(),
    {
        self.open = false;
    }
}

/// No job is lost and none is handed out twice: at any time the jobs
/// delivered so far, followed by those still pending, are exactly the jobs
/// accepted, in the order of their submission.
pub proof fn lemma_jobs_conserved<J>(queue: JobQueue<J>)
    requires
        queue.wf(),
    ensures
        queue.accepted() == queue.delivered() + queue.pending(),
        queue.delivered().len() + queue.pending().len() == queue.accepted().len(),
        forall|i: int|
            0 <= i < queue.delivered().len() ==> queue.delivered()[i] == queue.accepted()[i],
{
}

/// Graceful drain: whenever nothing is pending, every job the queue ever
/// accepted has been delivered. A closed queue in this state is the only
/// one in which `pop` answers `Disconnected`, so a worker that is told to
/// stop leaves no accepted job behind.
pub proof fn lemma_drained_when_disconnected<J>(queue: JobQueue<J>)
    requires
        queue.wf(),
        queue.pending().len() == 0,
    ensures
        queue.delivered() == queue.accepted(),
{
    assert(queue.delivered() + queue.pending() =~= queue.delivered());
}

} // verus!
