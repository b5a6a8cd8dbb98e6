//! The worker pool: a fixed set of workers, the queue they share, and the
//! hash ring that assigns clients to workers.
//!
//! The pool decides; it starts no thread itself. Its owner starts one thread
//! per worker, lets each of them call [`ThreadPool::receive`] under a lock
//! and act on [`Worker::on_receive`], and at teardown calls
//! [`ThreadPool::shutdown`] and then joins the threads in the order that
//! [`ThreadPool::join_next`] gives.
//!
//! The queue is unbounded: a producer that outruns the workers makes it grow
//! without limit. A worker that leaves its loop early, because it found the
//! lock poisoned, is not replaced: the pool goes on with the workers that
//! are left.

use vstd::prelude::*;
use vstd::string::StringExecFns;
use crate::error::ThreadError;
use crate::hashing::{
    decimal, hash_client_id, hash_worker_id, key_position, node_position, to_decimal,
};
use crate::queue::JobQueue;
use crate::ring::{lemma_ring_of_entries, lemma_route_total, ring_of, route, HashRing};
use crate::worker::{Received, Worker};

verus! {

/// The ordinals `0, 1, .., n - 1`.
pub open spec fn ordinals(n: nat) -> Seq<usize> {
    Seq::new(n, |i: int| i as usize)
}

/// Text of the error raised when a worker thread cannot be joined.
pub open spec fn join_failed_text(id_text: Seq<char>, info: Seq<char>) -> Seq<char> {
    "Worker "@ + id_text + " could not be joined: "@ + info
}

/// The ordinals of the workers of `workers` that are still running, in
/// order.
pub open spec fn running_ids(workers: Seq<Worker>) -> Seq<usize>
    decreases workers.len(),
{
    if workers.len() == 0 {
        Seq::empty()
    } else if workers.last().running() {
        running_ids(workers.drop_last()).push(workers.last().ordinal())
    } else {
        running_ids(workers.drop_last())
    }
}

/// A pool of workers that share one queue of jobs of type `J`.
pub struct ThreadPool<J> {
    workers: Vec<Worker>,
    queue: JobQueue<J>,
    hash_ring: HashRing,
}

impl<J> ThreadPool<J> {
    /// The pool's records of its workers, by ordinal.
    pub closed spec fn workers(&self) -> Seq<Worker> {
        self.workers@
    }

    /// The number of workers.
    pub open spec fn size(&self) -> nat {
        self.workers().len()
    }

    /// The ring that assigns positions to workers.
    pub closed spec fn ring(&self) -> Map<u64, usize> {
        self.hash_ring@
    }

    /// Whether the pool still accepts jobs.
    pub closed spec fn open(&self) -> bool {
        self.queue.open()
    }

    /// The jobs waiting for a worker, oldest first.
    pub closed spec fn pending(&self) -> Seq<J> {
        self.queue.pending()
    }

    /// Every job the pool has accepted so far, in order of submission.
    pub closed spec fn accepted(&self) -> Seq<J> {
        self.queue.accepted()
    }

    /// Every job handed to a worker so far, in order of receipt.
    pub closed spec fn delivered(&self) -> Seq<J> {
        self.queue.delivered()
    }

    /// The pool's invariant: there is at least one worker, worker `i` has
    /// ordinal `i`, the ring is the ring of those ordinals, and the queue
    /// has lost no job.
    pub closed spec fn wf(&self) -> bool {
        &&& self.queue.wf()
        &&& self.hash_ring.wf()
        &&& self.workers@.len() > 0
        &&& forall|i: int| 0 <= i < self.workers@.len() ==> (#[trigger] self.workers@[i]).ordinal() == i
        &&& self.hash_ring@ == ring_of(ordinals(self.workers@.len()))
    }

    /// Creates a pool of `size` workers, all running, with an open and
    /// empty queue, and places every worker on the ring. A pool without
    /// workers is refused.
    pub fn new(size: usize) -> (created: Result<ThreadPool<J>, ThreadError>)
        ensures
            match created {
                Ok(pool) => {
                    &&& size > 0
                    &&& pool.wf()
                    &&& pool.size() == size
                    &&& pool.ring() == ring_of(ordinals(size as nat))
                    &&& forall|i: int|
                        0 <= i < size ==> (#[trigger] pool.workers()[i]).running()
                            && pool.workers()[i].ordinal() == i
                    &&& pool.open()
                    &&& pool.pending() == Seq::<J>::empty()
                    &&& pool.accepted() == Seq::<J>::empty()
                    &&& pool.delivered() == Seq::<J>::empty()
                },
                Err(error) => size == 0 && (error matches ThreadError::InvalidSize(msg) && msg@
                    == "Thread pool with size 0 cannot be initialized!"@),
            },
    {
        if size == 0 {
            return Err(
                ThreadError::InvalidSize(
                    "Thread pool with size 0 cannot be initialized!".to_owned(),
                ),
            );
        }
        let mut workers: Vec<Worker> = Vec::new();
        let mut hash_ring: HashRing = HashRing::new();
        let mut id: usize = 0;
        while id < size
            invariant
                id <= size,
                workers@.len() == id,
                forall|i: int|
                    0 <= i < id ==> (#[trigger] workers@[i]).running() && workers@[i].ordinal()
                        == i,
                hash_ring.wf(),
                hash_ring@ == ring_of(ordinals(id as nat)),
            decreases size - id,
        {
            workers.push(Worker::new(id));
            hash_ring.insert(hash_worker_id(id), id);
            proof {
                let grown = ordinals((id + 1) as nat);
                assert(grown.drop_last() =~= ordinals(id as nat));
                assert(grown.last() == id);
            }
            id = id + 1;
        }
        Ok(ThreadPool { workers, queue: JobQueue::new(), hash_ring })
    }

    /// The number of workers.
    pub fn worker_count(&self) -> (count: usize)
        ensures
            count == self.size(),
    {
        self.workers.len()
    }

    /// Whether the pool still accepts jobs.
    pub fn is_open(&self) -> (open: bool)
        ensures
            open == self.open(),
    {
        self.queue.is_open()
    }

    /// The number of jobs waiting for a worker.
    pub fn pending_jobs(&self) -> (count: usize)
        ensures
            count == self.pending().len(),
    {
        self.queue.len()
    }

    /// The pool's record of worker `id`, if there is such a worker.
    pub fn worker(&self, id: usize) -> (worker: Option<&Worker>)
        ensures
            match worker {
                Some(worker) => id < self.size() && *worker == self.workers()[id as int],
                None => id >= self.size(),
            },
    {
        if id < self.workers.len() {
            Some(&self.workers[id])
        } else {
            None
        }
    }

    /// The ring that assigns positions to workers.
    pub fn hash_ring(&self) -> (ring: &HashRing)
        requires
            self.wf(),
        ensures
            ring.wf(),
            ring@ == self.ring(),
    {
        &self.hash_ring
    }

    /// The worker that owns `position` on the ring.
    pub fn worker_at(&self, position: u64) -> (worker: usize)
        requires
            self.wf(),
        ensures
            worker == route(self.ring(), position),
            worker < self.size(),
    {
        proof {
            let ids = ordinals(self.workers@.len());
            lemma_ring_of_entries(ids);
            assert(self.hash_ring@.contains_key(node_position(ids[0] as nat)));
            lemma_route_total(ids, position);
            let i = choose|i: int| 0 <= i < ids.len() && ids[i] == route(ring_of(ids), position);
            assert(ids.len() == self.workers.len());
            assert(ids[i] == i);
        }
        match self.hash_ring.locate(position) {
            Some(worker) => worker,
            None => 0,
        }
    }

    /// The worker that requests of the client `client_id` are assigned to:
    /// the owner, on the ring, of the position of `client_id`.
    pub fn get_worker_for_request(&self, client_id: &str) -> (worker: usize)
        requires
            self.wf(),
        ensures
            worker == route(self.ring(), key_position(client_id@)),
            worker < self.size(),
    {
        self.worker_at(hash_client_id(client_id))
    }

    /// Submits `job` on behalf of the client `client_id`. An open pool
    /// appends the job to its queue and answers with the worker that the
    /// ring assigns to the client; a pool that has been shut down accepts
    /// nothing.
    pub fn execute(&mut self, client_id: &str, job: J) -> (submitted: Result<usize, ThreadError>)
        requires
            old(self).wf(),
        ensures
            final(self).wf(),
            final(self).workers() == old(self).workers(),
            final(self).ring() == old(self).ring(),
            final(self).open() == old(self).open(),
            final(self).delivered() == old(self).delivered(),
            match submitted {
                Ok(worker) => {
                    &&& old(self).open()
                    &&& worker == route(old(self).ring(), key_position(client_id@))
                    &&& worker < old(self).size()
                    &&& final(self).pending() == old(self).pending().push(job)
                    &&& final(self).accepted() == old(self).accepted().push(job)
                },
                Err(error) => {
                    &&& !old(self).open()
                    &&& error matches ThreadError::SenderError(msg) && msg@
                        == "The pool is shut down and accepts no more jobs"@
                    &&& final(self).pending() == old(self).pending()
                    &&& final(self).accepted() == old(self).accepted()
                },
            },
    {
        let worker: usize = self.get_worker_for_request(client_id);
        match self.queue.push(job) {
            Ok(_) => Ok(worker),
            Err(_) => Err(
                ThreadError::SenderError(
                    "The pool is shut down and accepts no more jobs".to_owned(),
                ),
            ),
        }
    }

    /// One attempt of a worker to take a job: the oldest waiting job if
    /// there is one, `Empty` if there is none yet, and `Disconnected` once
    /// the pool is shut down and its queue is drained.
    pub fn receive(&mut self) -> (received: Received<J>)
        requires
            old(self).wf(),
        ensures
            final(self).wf(),
            final(self).workers() == old(self).workers(),
            final(self).ring() == old(self).ring(),
            final(self).open() == old(self).open(),
            final(self).accepted() == old(self).accepted(),
            match received {
                Received::Job(job) => old(self).pending().len() > 0
                    && job == old(self).pending()[0]
                    && final(self).pending() == old(self).pending().drop_first()
                    && final(self).delivered() == old(self).delivered().push(job),
                Received::Empty => old(self).pending().len() == 0 && old(self).open()
                    && final(self).pending() == old(self).pending()
                    && final(self).delivered() == old(self).delivered(),
                Received::Disconnected => old(self).pending().len() == 0 && !old(self).open()
                    && final(self).pending() == old(self).pending()
                    && final(self).delivered() == old(self).delivered(),
                Received::Poisoned(_) => false,
            },
    {
        self.queue.pop()
    }

    /// Begins teardown: closes the queue. Jobs already waiting stay and are
    /// still handed out; nothing new is accepted.
    pub fn shutdown(&mut self)
        requires
            old(self).wf(),
        ensures
            final(self).wf(),
            !final(self).open(),
            final(self).workers() == old(self).workers(),
            final(self).ring() == old(self).ring(),
            final(self).pending() == old(self).pending(),
            final(self).accepted() == old(self).accepted(),
            final(self).delivered() == old(self).delivered(),
    {
        self.queue.close();
    }

    /// Names the next worker whose thread is to be joined, lowest ordinal
    /// first, and records it as stopped; `None` once every worker has been
    /// named. The queue is closed before any worker is named, because a
    /// worker only leaves its loop after it has seen the queue closed.
    pub fn join_next(&mut self) -> (next: Option<usize>)
        requires
            old(self).wf(),
        ensures
            final(self).wf(),
            !final(self).open(),
            final(self).size() == old(self).size(),
            final(self).ring() == old(self).ring(),
            final(self).pending() == old(self).pending(),
            final(self).accepted() == old(self).accepted(),
            final(self).delivered() == old(self).delivered(),
            match next {
                Some(id) => {
                    &&& running_ids(old(self).workers()).len() > 0
                    &&& id == running_ids(old(self).workers())[0]
                    &&& running_ids(final(self).workers()) == running_ids(
                        old(self).workers(),
                    ).drop_first()
                },
                None => running_ids(old(self).workers()).len() == 0 && final(self).workers()
                    == old(self).workers(),
            },
    {
        self.queue.close();
        let mut index: usize = 0;
        while index < self.workers.len()
            invariant
                self.wf(),
                self.workers@ == old(self).workers@,
                self.hash_ring@ == old(self).hash_ring@,
                !self.queue.open(),
                self.queue.pending() == old(self).queue.pending(),
                self.queue.accepted() == old(self).queue.accepted(),
                self.queue.delivered() == old(self).queue.delivered(),
                index <= self.workers@.len(),
                running_ids(self.workers@.take(index as int)).len() == 0,
            decreases self.workers@.len() - index,
        {
            if self.workers[index].is_running() {
                let id: usize = self.workers[index].id();
                let ghost before = self.workers@;
                let mut stopped: Worker = Worker::new(id);
                stopped.stop();
                self.workers.set(index, stopped);
                proof {
                    lemma_running_ids_stop(before, self.workers@, index as int);
                }
                return Some(id);
            }
            proof {
                assert(self.workers@.take(index + 1).drop_last() =~= self.workers@.take(
                    index as int,
                ));
            }
            index = index + 1;
        }
        proof {
            assert(self.workers@.take(index as int) =~= self.workers@);
        }
        None
    }

    /// The error for a worker thread that could not be joined; `info` says
    /// why. A failed join does not stop the teardown: the remaining workers
    /// are still joined.
    pub fn join_failed(id: usize, info: &str) -> (error: ThreadError)
        ensures
            error matches ThreadError::JoinError(msg) && msg@ == join_failed_text(
                decimal(id as nat),
                info@,
            ),
    {
        let mut msg: String = "Worker ".to_owned();
        let id_text: String = to_decimal(id);
        msg.append(id_text.as_str());
        msg.append(" could not be joined: ");
        msg.append(info);
        ThreadError::JoinError(msg)
    }
}

/// Stopping the first running worker removes exactly its ordinal from the
/// front of the running ordinals.
proof fn lemma_running_ids_stop(before: Seq<Worker>, after: Seq<Worker>, index: int)
    requires
        0 <= index < before.len(),
        after.len() == before.len(),
        forall|i: int| 0 <= i < before.len() && i != index ==> after[i] == before[i],
        before[index].running(),
        !after[index].running(),
        running_ids(before.take(index)).len() == 0,
    ensures
        running_ids(before).len() > 0,
        running_ids(before)[0] == before[index].ordinal(),
        running_ids(after) == running_ids(before).drop_first(),
    decreases before.len(),
{
    let n = before.len() - 1;
    if index == n {
        assert(before.drop_last() =~= before.take(index));
        assert(after.drop_last() =~= before.take(index));
        assert(running_ids(before) =~= seq![before[index].ordinal()]);
        assert(running_ids(after) =~= running_ids(before).drop_first());
    } else {
        assert(before.drop_last().take(index) =~= before.take(index));
        lemma_running_ids_stop(before.drop_last(), after.drop_last(), index);
        assert(after.last() == before.last());
        if before.last().running() {
            assert(running_ids(after) =~= running_ids(before).drop_first());
        }
    }
}

/// No job is lost and none is handed out twice: the jobs delivered so far,
/// followed by those still waiting, are exactly the jobs the pool accepted,
/// in the order of their submission.
pub proof fn lemma_pool_jobs_conserved<J>(pool: ThreadPool<J>)
    requires
        pool.wf(),
    ensures
        pool.accepted() == pool.delivered() + pool.pending(),
{
    crate::queue::lemma_jobs_conserved(pool.queue);
}

/// Graceful drain: a worker is told `Disconnected` only by a pool that is
/// shut down and has nothing waiting, and in a pool with nothing waiting
/// every accepted job has been handed to a worker.
pub proof fn lemma_pool_drained<J>(pool: ThreadPool<J>)
    requires
        pool.wf(),
        pool.pending().len() == 0,
    ensures
        pool.delivered() == pool.accepted(),
{
    crate::queue::lemma_drained_when_disconnected(pool.queue);
}

/// Every client is assigned to a worker of the pool.
pub proof fn lemma_pool_routes_to_worker<J>(pool: ThreadPool<J>, position: u64)
    requires
        pool.wf(),
    ensures
        route(pool.ring(), position) < pool.size(),
{
    let ids = ordinals(pool.workers@.len());
    lemma_route_total(ids, position);
    let i = choose|i: int| 0 <= i < ids.len() && ids[i] == route(ring_of(ids), position);
    assert(ids.len() == pool.workers.len());
    assert(ids[i] == i);
}

} // verus!
