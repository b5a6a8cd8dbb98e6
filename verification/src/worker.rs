//! One worker of the pool: the record the pool keeps of it, and the decision
//! its thread takes after every attempt to receive a job.

use vstd::prelude::*;
use vstd::string::StringExecFns;
use crate::error::ThreadError;

verus! {

/// What one attempt to take a job from the shared queue produced.
#[derive(Debug)]
pub enum Received<J> {
    /// A job was taken from the front of the queue.
    Job(J),
    /// The queue is open but holds nothing right now.
    Empty,
    /// The queue is closed and drained: no job will ever arrive.
    Disconnected,
    /// The lock around the queue was poisoned; the text says how.
    Poisoned(String),
}

/// What a worker thread does next.
#[derive(Debug)]
pub enum WorkerStep<J> {
    /// Run the job, outside the lock, then try to receive again.
    Run(J),
    /// Block until the queue changes, then try to receive again.
    Wait,
    /// Leave the loop: the pool is shutting down.
    Shutdown,
    /// Leave the loop: this thread cannot go on.
    Fail(ThreadError),
}

/// The pool's record of one worker thread.
#[derive(Debug)]
pub struct Worker {
    id: usize,
    running: bool,
}

/// Text of the error raised when the queue's lock is poisoned.
pub open spec fn poisoned_text(info: Seq<char>) -> Seq<char> {
    "Maybe a thread panicked somewhere? Can't lock the mutex:/\nHere's additional info: "@ + info
}

/// Text of the error raised when a worker thread cannot be started.
pub open spec fn spawn_failed_text(info: Seq<char>) -> Seq<char> {
    "Whoops, a handler error.. Too many workers perhaps?\nHere's additional info: "@ + info
}

impl Worker {
    /// The worker's ordinal within its pool.
    pub closed spec fn ordinal(&self) -> usize {
        self.id
    }

    /// Whether the worker's thread has not been joined yet.
    pub closed spec fn running(&self) -> bool {
        self.running
    }

    /// Records a worker whose thread has just been started.
    pub fn new(id: usize) -> (worker: Worker)
        ensures
            worker.ordinal() == id,
            worker.running(),
    {
        Worker { id, running: true }
    }

    /// The worker's ordinal within its pool.
    pub fn id(&self) -> (id: usize)
        ensures
            id == self.ordinal(),
    {
        self.id
    }

    /// Whether the worker's thread has not been joined yet.
    pub fn is_running(&self) -> (running: bool)
        ensures
            running == self.running(),
    {
        self.running
    }

    /// Records that the worker's thread has been joined.
    pub fn stop(&mut self)
        ensures
            final(self).ordinal() == old(self).ordinal(),
            !final(self).running(),
    {
        self.running = false;
    }

    /// Decides what a worker thread does with the outcome of one receive
    /// attempt: a job is run, an empty queue is waited on, a closed queue
    /// ends the loop, and a poisoned lock ends it with a `MutexError`.
    pub fn on_receive<J>(received: Received<J>) -> (step: WorkerStep<J>)
        ensures
            match (received, step) {
                (Received::Job(taken), WorkerStep::Run(job)) => job == taken,
                (Received::Empty, WorkerStep::Wait) => true,
                (Received::Disconnected, WorkerStep::Shutdown) => true,
                (Received::Poisoned(info), WorkerStep::Fail(ThreadError::MutexError(msg))) => msg@
                    == poisoned_text(info@),
                _ => false,
            },
    {
        match received {
            Received::Job(job) => WorkerStep::Run(job),
            Received::Empty => WorkerStep::Wait,
            Received::Disconnected => WorkerStep::Shutdown,
            Received::Poisoned(info) => {
                let mut msg: String =
                    "Maybe a thread panicked somewhere? Can't lock the mutex:/\nHere's additional info: ".to_owned();
                msg.append(info.as_str());
                WorkerStep::Fail(ThreadError::MutexError(msg))
            },
        }
    }

    /// The error for a worker thread that the operating system refused to
    /// start; `info` is the system's own description.
    pub fn spawn_failed(info: &str) -> (error: ThreadError)
        ensures
            error matches ThreadError::ThreadHandlerError(msg) && msg@ == spawn_failed_text(info@),
    {
        let mut msg: String =
            "Whoops, a handler error.. Too many workers perhaps?\nHere's additional info: ".to_owned();
        msg.append(info);
        ThreadError::ThreadHandlerError(msg)
    }
}

} // verus!
