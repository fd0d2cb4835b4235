//! The pool: owner of the worker set and of the message queue, with the
//! dispatch and shutdown protocol and its guarantees.
//!
//! The pool here is the engine's state machine. Submission appends a job
//! message; one dispatch step hands the front message to a worker, which
//! runs the job or consumes a terminate token and stops; shutdown enqueues
//! one terminate token per worker, drains the queue, and joins every worker.
//! The surrounding runtime (execution contexts, the blocking channel, the
//! shared-receiver guard) performs each step physically and keeps this state
//! machine as its ledger.

use vstd::prelude::*;

use crate::message::Message;
use crate::message::job_ids;
use crate::message::lemma_job_ids_push_job;
use crate::message::lemma_job_ids_push_terminate;
use crate::message::lemma_queue_skip_front;
use crate::message::lemma_terminate_count_push;
use crate::message::lemma_terminate_count_zero;
use crate::message::terminate_count;
use crate::message::terminates_last;
use crate::worker::Worker;
use crate::worker::lemma_running_count_all;
use crate::worker::lemma_running_count_none;
use crate::worker::lemma_running_count_pos;
use crate::worker::lemma_running_count_push;
use crate::worker::lemma_running_count_update;
use crate::worker::lemma_running_count_zero;
use crate::worker::running_count;

verus! {

/// A fixed-size worker pool: the worker records in creation order, the FIFO
/// message queue, the ids of the jobs dispatched so far in dispatch order,
/// and whether the shutdown protocol has issued its terminate tokens.
pub struct ThreadPool {
    /// The worker records, in creation order; the length is fixed at
    /// construction and stays the pool's size for its whole lifetime.
    pub workers: Vec<Worker>,
    /// The message queue, front at index zero; messages leave exactly once
    /// and in order.
    pub queue: Vec<Message>,
    /// The ids of the jobs dispatched so far, in dispatch order.
    pub executed: Vec<usize>,
    /// True once shutdown has enqueued its terminate tokens.
    pub terminates_sent: bool,
}

impl ThreadPool {
    /// Well-formedness, established by construction and preserved by every
    /// operation: worker ids match their position, a joined worker has
    /// stopped, jobs precede terminate tokens in the queue, and before
    /// shutdown the queue holds no terminate token and every worker is
    /// running with its handle present, while after shutdown has issued its
    /// tokens the queue holds exactly one terminate token per still-running
    /// worker.
    pub open spec fn wf(self) -> bool {
        &&& self.workers@.len() >= 1
        &&& forall|i: int| 0 <= i < self.workers@.len() ==> (#[trigger] self.workers@[i]).id == i
        &&& forall|i: int|
            0 <= i < self.workers@.len() && !(#[trigger] self.workers@[i]).handle
                ==> !self.workers@[i].running
        &&& terminates_last(self.queue@)
        &&& if self.terminates_sent {
            terminate_count(self.queue@) == running_count(self.workers@)
        } else {
            &&& terminate_count(self.queue@) == 0
            &&& forall|i: int|
                0 <= i < self.workers@.len()
                    ==> (#[trigger] self.workers@[i]).running && self.workers@[i].handle
        }
    }

    /// The ids of every job submitted so far, in submission order: the jobs
    /// already dispatched followed by the jobs still queued.
    pub open spec fn submitted(self) -> Seq<usize> {
        self.executed@ + job_ids(self.queue@)
    }

    /// Construct a pool of `size` workers, indexed in creation order, with
    /// an empty queue and nothing submitted. A size of zero is a programmer
    /// error and is excluded here; `try_new` is the checked form.
    pub fn new(size: usize) -> (p: ThreadPool)
        requires
            size >= 1,
        ensures
            p.wf(),
            p.workers@.len() == size,
            forall|i: int|
                0 <= i < size
                    ==> (#[trigger] p.workers@[i]).id == i && p.workers@[i].running
                    && p.workers@[i].handle,
            p.queue@.len() == 0,
            p.executed@.len() == 0,
            !p.terminates_sent,
            p.submitted() == Seq::<usize>::empty(),
    {
        let mut workers: Vec<Worker> = Vec::new();
        let mut id: usize = 0;
        while id < size
            invariant
                id <= size,
                workers@.len() == id,
                forall|i: int|
                    0 <= i < id
                        ==> (#[trigger] workers@[i]).id == i && workers@[i].running
                        && workers@[i].handle,
            decreases size - id,
        {
            workers.push(Worker::new(id));
            id = id + 1;
        }
        let p = ThreadPool {
            workers,
            queue: Vec::new(),
            executed: Vec::new(),
            terminates_sent: false,
        };
        proof {
            assert(p.submitted() =~= Seq::<usize>::empty());
        }
        p
    }

    /// The checked constructor: a pool exactly when the size is positive.
    pub fn try_new(size: usize) -> (r: Option<ThreadPool>)
        ensures
            r is Some <==> size >= 1,
            r matches Some(p) ==> {
                &&& p.wf()
                &&& p.workers@.len() == size
                &&& p.queue@.len() == 0
                &&& p.executed@.len() == 0
                &&& !p.terminates_sent
                &&& p.submitted() == Seq::<usize>::empty()
            },
    {
        if size >= 1 {
            Some(ThreadPool::new(size))
        } else {
            None
        }
    }

    /// Submit a job: append a job message to the queue. The submission
    /// sequence grows by exactly this id; nothing else changes.
    pub fn execute(&mut self, task: usize)
        requires
            old(self).wf(),
            !old(self).terminates_sent,
        ensures
            final(self).wf(),
            !final(self).terminates_sent,
            final(self).workers@ == old(self).workers@,
            final(self).executed@ == old(self).executed@,
            final(self).queue@ == old(self).queue@.push(Message::NewJob(task)),
            final(self).submitted() == old(self).submitted().push(task),
    {
        let ghost q0 = self.queue@;
        proof {
            lemma_job_ids_push_job(q0, task);
            lemma_terminate_count_push(q0, Message::NewJob(task));
            lemma_terminate_count_zero(q0);
        }
        self.queue.push(Message::NewJob(task));
        proof {
            assert(terminates_last(self.queue@)) by {
                assert forall|i: int, j: int|
                    0 <= i < j < self.queue@.len() && (#[trigger] self.queue@[i]) is Terminate
                        implies (#[trigger] self.queue@[j]) is Terminate by {
                    assert(self.queue@[i] == q0[i]);
                    assert(!(q0[i] is Terminate));
                }
            }
            assert(self.submitted() =~= old(self).submitted().push(task));
        }
    }

    /// One worker iteration: take the front message. A job message is
    /// dispatched, and its id is appended to the dispatch record; a
    /// terminate token stops one still-running worker. Either way the rest
    /// of the queue, the submission sequence, and every handle are
    /// unchanged.
    pub fn step(&mut self) -> (m: Message)
        requires
            old(self).wf(),
            old(self).queue@.len() > 0,
        ensures
            final(self).wf(),
            m == old(self).queue@[0],
            final(self).queue@ == old(self).queue@.skip(1),
            final(self).terminates_sent == old(self).terminates_sent,
            final(self).submitted() == old(self).submitted(),
            final(self).workers@.len() == old(self).workers@.len(),
            forall|i: int|
                0 <= i < old(self).workers@.len()
                    ==> (#[trigger] final(self).workers@[i]).handle == old(self).workers@[i].handle
                    && final(self).workers@[i].id == old(self).workers@[i].id,
            m matches Message::NewJob(t) ==> {
                &&& final(self).executed@ == old(self).executed@.push(t)
                &&& final(self).workers@ == old(self).workers@
            },
            m is Terminate ==> {
                &&& final(self).executed@ == old(self).executed@
                &&& running_count(final(self).workers@) + 1 == running_count(old(self).workers@)
                &&& exists|i: int|
                    0 <= i < old(self).workers@.len() && (#[trigger] old(self).workers@[i]).running
                        && final(self).workers@ == old(self).workers@.update(
                        i,
                        (Worker {
                            id: old(self).workers@[i].id,
                            running: false,
                            handle: old(self).workers@[i].handle,
                        }),
                    )
            },
    {
        let ghost q0 = self.queue@;
        let m = self.queue.remove(0);
        proof {
            assert(self.queue@ =~= q0.skip(1));
            lemma_queue_skip_front(q0);
        }
        match m {
            Message::NewJob(t) => {
                self.executed.push(t);
                proof {
                    assert(q0[0] == Message::NewJob(t));
                    assert(job_ids(q0) == seq![t] + job_ids(q0.skip(1)));
                    assert(self.submitted() =~= old(self).submitted());
                }
            },
            Message::Terminate => {
                proof {
                    assert(q0[0] is Terminate);
                    assert(terminate_count(q0) >= 1);
                    if !self.terminates_sent {
                        assert(false);
                    }
                    lemma_running_count_pos(self.workers@);
                }
                let j = self.first_running();
                let w = self.workers[j];
                let stopped = Worker { id: w.id, running: false, handle: w.handle };
                let ghost ws = self.workers@;
                self.workers.set(j, stopped);
                proof {
                    lemma_running_count_update(ws, j as int, stopped);
                    assert(job_ids(q0) == job_ids(q0.skip(1)));
                    assert(self.submitted() =~= old(self).submitted());
                    assert(0 <= j < old(self).workers@.len()
                        && old(self).workers@[j as int].running && self.workers@ == old(
                        self,
                    ).workers@.update(
                        j as int,
                        (Worker {
                            id: old(self).workers@[j as int].id,
                            running: false,
                            handle: old(self).workers@[j as int].handle,
                        }),
                    ));
                }
            },
        }
        m
    }

    /// The index of the first still-running worker.
    fn first_running(&self) -> (j: usize)
        requires
            exists|i: int| 0 <= i < self.workers@.len() && (#[trigger] self.workers@[i]).running,
        ensures
            j < self.workers@.len(),
            self.workers@[j as int].running,
    {
        let ghost witness = choose|i: int|
            0 <= i < self.workers@.len() && (#[trigger] self.workers@[i]).running;
        let n = self.workers.len();
        let mut j: usize = 0;
        loop
            invariant
                j <= n,
                n == self.workers@.len(),
                forall|k: int| 0 <= k < j ==> !(#[trigger] self.workers@[k]).running,
                0 <= witness < n && self.workers@[witness].running,
            decreases n - j,
        {
            proof {
                assert(j <= witness);
            }
            if self.workers[j].running {
                return j;
            }
            j = j + 1;
        }
    }

    /// The first step of the shutdown protocol: enqueue one terminate token
    /// per worker. After it, the queue holds the pending jobs followed by
    /// exactly as many terminate tokens as there are workers, and no worker
    /// has yet stopped.
    pub fn send_terminates(&mut self)
        requires
            old(self).wf(),
            !old(self).terminates_sent,
        ensures
            final(self).wf(),
            final(self).terminates_sent,
            final(self).workers@ == old(self).workers@,
            final(self).executed@ == old(self).executed@,
            final(self).queue@ == old(self).queue@ + Seq::new(
                old(self).workers@.len(),
                |i: int| Message::Terminate,
            ),
            terminate_count(final(self).queue@) == old(self).workers@.len(),
            final(self).submitted() == old(self).submitted(),
    {
        let ghost q0 = self.queue@;
        proof {
            assert(q0 + Seq::new(0, |i: int| Message::Terminate) =~= q0);
        }
        let n = self.workers.len();
        let mut sent: usize = 0;
        while sent < n
            invariant
                sent <= n,
                self.workers@ == old(self).workers@,
                self.executed@ == old(self).executed@,
                self.terminates_sent == old(self).terminates_sent,
                n == self.workers@.len(),
                self.queue@ == q0 + Seq::new(sent as nat, |i: int| Message::Terminate),
                terminate_count(self.queue@) == sent,
                terminates_last(self.queue@),
                job_ids(self.queue@) == job_ids(q0),
            decreases n - sent,
        {
            proof {
                lemma_terminate_count_push(self.queue@, Message::Terminate);
                lemma_job_ids_push_terminate(self.queue@);
            }
            let ghost qprev = self.queue@;
            self.queue.push(Message::Terminate);
            proof {
                assert(terminates_last(self.queue@)) by {
                    assert forall|i: int, j: int|
                        0 <= i < j < self.queue@.len() && (#[trigger] self.queue@[i]) is Terminate
                            implies (#[trigger] self.queue@[j]) is Terminate by {
                        if j < qprev.len() {
                            assert(self.queue@[i] == qprev[i]);
                            assert(self.queue@[j] == qprev[j]);
                        } else {
                            assert(self.queue@[j] == Message::Terminate);
                        }
                    }
                }
                assert(self.queue@ =~= q0 + Seq::new((sent + 1) as nat, |i: int| Message::Terminate));
            }
            sent = sent + 1;
        }
        self.terminates_sent = true;
        proof {
            lemma_running_count_all(self.workers@);
            assert(self.submitted() =~= old(self).submitted());
        }
    }

    /// Drain the queue after the terminate tokens have been issued: workers
    /// take messages until none is left. Every job still pending is
    /// dispatched, in order, so the dispatch record ends equal to the whole
    /// submission sequence, and every worker has consumed a terminate token
    /// and stopped. Handles are untouched.
    pub fn drain(&mut self)
        requires
            old(self).wf(),
            old(self).terminates_sent,
        ensures
            final(self).wf(),
            final(self).terminates_sent,
            final(self).queue@.len() == 0,
            final(self).executed@ == old(self).submitted(),
            final(self).submitted() == old(self).submitted(),
            final(self).workers@.len() == old(self).workers@.len(),
            running_count(final(self).workers@) == 0,
            forall|i: int|
                0 <= i < old(self).workers@.len()
                    ==> (#[trigger] final(self).workers@[i]).handle == old(self).workers@[i].handle
                    && final(self).workers@[i].id == old(self).workers@[i].id,
    {
        let ghost init = *self;
        while self.queue.len() > 0
            invariant
                self.wf(),
                self.terminates_sent,
                self.submitted() == init.submitted(),
                self.workers@.len() == init.workers@.len(),
                forall|i: int|
                    0 <= i < init.workers@.len()
                        ==> (#[trigger] self.workers@[i]).handle == init.workers@[i].handle
                        && self.workers@[i].id == init.workers@[i].id,
            decreases self.queue@.len(),
        {
            let _ = self.step();
        }
        proof {
            assert(self.executed@ =~= self.submitted());
        }
    }

    /// The second step of the shutdown protocol: join every worker in
    /// creation order. Joining blocks until the worker's execution context
    /// has ended, so every worker must already have stopped; each present
    /// handle is taken, and afterwards no worker holds one.
    pub fn join_all(&mut self)
        requires
            old(self).wf(),
            running_count(old(self).workers@) == 0,
        ensures
            final(self).wf(),
            final(self).terminates_sent == old(self).terminates_sent,
            final(self).queue@ == old(self).queue@,
            final(self).executed@ == old(self).executed@,
            final(self).submitted() == old(self).submitted(),
            final(self).workers@.len() == old(self).workers@.len(),
            forall|i: int|
                0 <= i < final(self).workers@.len()
                    ==> !(#[trigger] final(self).workers@[i]).running
                    && !final(self).workers@[i].handle && final(self).workers@[i].id == i,
    {
        proof {
            lemma_running_count_zero(self.workers@);
            if !self.terminates_sent {
                assert(self.workers@[0].running);
                assert(false);
            }
        }
        let n = self.workers.len();
        let mut j: usize = 0;
        while j < n
            invariant
                j <= n,
                n == self.workers@.len(),
                self.queue@ == old(self).queue@,
                self.executed@ == old(self).executed@,
                self.terminates_sent,
                self.terminates_sent == old(self).terminates_sent,
                terminates_last(self.queue@),
                terminate_count(self.queue@) == 0,
                forall|i: int| 0 <= i < n ==> (#[trigger] self.workers@[i]).id == i,
                forall|i: int| 0 <= i < n ==> !(#[trigger] self.workers@[i]).running,
                forall|i: int| 0 <= i < j ==> !(#[trigger] self.workers@[i]).handle,
            decreases n - j,
        {
            let w = self.workers[j];
            if w.handle {
                let joined = Worker { id: w.id, running: false, handle: false };
                self.workers.set(j, joined);
            }
            j = j + 1;
        }
        proof {
            lemma_running_count_none(self.workers@);
            assert(self.submitted() =~= old(self).submitted());
        }
    }

    /// The whole shutdown protocol, idempotent: issue the terminate tokens
    /// unless they were already issued, drain the queue, join every worker.
    /// When it returns, every job ever submitted has been dispatched exactly
    /// once and in submission order, the queue is empty, and every worker
    /// has stopped and been joined.
    pub fn shutdown(&mut self)
        requires
            old(self).wf(),
        ensures
            final(self).wf(),
            final(self).terminates_sent,
            final(self).queue@.len() == 0,
            final(self).executed@ == old(self).submitted(),
            final(self).submitted() == old(self).submitted(),
            final(self).workers@.len() == old(self).workers@.len(),
            forall|i: int|
                0 <= i < final(self).workers@.len()
                    ==> !(#[trigger] final(self).workers@[i]).running
                    && !final(self).workers@[i].handle && final(self).workers@[i].id == i,
    {
        if !self.terminates_sent {
            self.send_terminates();
        }
        self.drain();
        self.join_all();
    }

    /// How many workers are still running; zero exactly when every worker
    /// has consumed its terminate token.
    pub fn running_workers(&self) -> (n: usize)
        ensures
            n as nat == running_count(self.workers@),
    {
        let len = self.workers.len();
        let mut n: usize = 0;
        let mut j: usize = 0;
        proof {
            assert(self.workers@.take(0) =~= Seq::<Worker>::empty());
        }
        while j < len
            invariant
                j <= len,
                len == self.workers@.len(),
                n <= j,
                n as nat == running_count(self.workers@.take(j as int)),
            decreases len - j,
        {
            proof {
                assert(self.workers@.take(j + 1) =~= self.workers@.take(j as int).push(
                    self.workers@[j as int],
                ));
                lemma_running_count_push(self.workers@.take(j as int), self.workers@[j as int]);
            }
            if self.workers[j].running {
                n = n + 1;
            }
            j = j + 1;
        }
        proof {
            assert(self.workers@.take(len as int) =~= self.workers@);
        }
        n
    }
}

/// Exactly-once accounting: the submitted jobs are, with multiplicity,
/// exactly the jobs already dispatched plus the jobs still queued. No
/// submission is lost, and none is dispatched twice.
pub proof fn lemma_exactly_once(p: ThreadPool)
    ensures
        p.submitted().to_multiset() == p.executed@.to_multiset().add(
            job_ids(p.queue@).to_multiset(),
        ),
{
    vstd::seq_lib::lemma_multiset_commutative(p.executed@, job_ids(p.queue@));
}

/// FIFO dispatch: when the front of the queue is a job, it is the earliest
/// pending submission — the one that follows the jobs already dispatched in
/// the submission sequence.
pub proof fn lemma_fifo_front(p: ThreadPool)
    requires
        p.queue@.len() > 0,
        p.queue@[0] is NewJob,
    ensures
        job_ids(p.queue@).len() > 0,
        job_ids(p.queue@)[0] == p.queue@[0]->0,
        p.submitted()[p.executed@.len() as int] == p.queue@[0]->0,
{
    let t = p.queue@[0]->0;
    assert(p.queue@[0] == Message::NewJob(t));
    assert(job_ids(p.queue@) == seq![t] + job_ids(p.queue@.skip(1)));
    assert(job_ids(p.queue@)[0] == t);
    assert(p.submitted()[p.executed@.len() as int] == job_ids(p.queue@)[0]);
}

} // verus!

