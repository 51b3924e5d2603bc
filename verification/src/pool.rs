//! The worker pool's coordination logic. The pool feeds a first-in
//! first-out queue of control messages: one `NewJob` per submitted job,
//! and, at shutdown, exactly one `Terminate` per worker. Workers claim
//! messages one at a time and act on them; the surrounding program runs
//! the claiming loop on its threads, while everything the pool decides —
//! what enters the queue, in what order messages leave it, and what a
//! worker does with each — is settled here.
use vstd::prelude::*;

verus! {

/// A message on the job queue: a unit of work, named by a job number, or
/// the sentinel telling one worker to exit.
#[derive(Clone, Copy, Debug, PartialEq, Eq, Structural)]
pub enum ControlMessage {
    NewJob(u64),
    Terminate,
}

/// What a worker does with a claimed message: run the named job, or exit
/// its loop.
#[derive(Clone, Copy, Debug, PartialEq, Eq, Structural)]
pub enum WorkerAction {
    Run(u64),
    Exit,
}

/// One worker of the pool.
pub struct Worker {
    pub id: usize,
}

/// The job numbers carried by a queue, in order.
pub open spec fn jobs_of(q: Seq<ControlMessage>) -> Seq<u64>
    decreases q.len(),
{
    if q.len() == 0 {
        Seq::empty()
    } else {
        jobs_of(q.drop_last()) + (match q.last() {
            ControlMessage::NewJob(j) => seq![j],
            ControlMessage::Terminate => Seq::empty(),
        })
    }
}

/// How many terminate sentinels a queue carries.
pub open spec fn terminate_count(q: Seq<ControlMessage>) -> nat
    decreases q.len(),
{
    if q.len() == 0 {
        0
    } else {
        terminate_count(q.drop_last()) + (match q.last() {
            ControlMessage::NewJob(j) => 0nat,
            ControlMessage::Terminate => 1nat,
        })
    }
}

/// `n` terminate sentinels.
pub open spec fn terminates(n: nat) -> Seq<ControlMessage> {
    Seq::new(n, |i: int| ControlMessage::Terminate)
}

/// The queue left behind by submitting `jobs` in order and then shutting
/// down a pool of `size` workers.
pub open spec fn submission_queue(jobs: Seq<u64>, size: nat) -> Seq<ControlMessage> {
    jobs.map_values(|j: u64| ControlMessage::NewJob(j)) + terminates(size)
}

/// What one claimed message makes a worker do.
pub open spec fn step_of(msg: ControlMessage) -> WorkerAction {
    match msg {
        ControlMessage::NewJob(j) => WorkerAction::Run(j),
        ControlMessage::Terminate => WorkerAction::Exit,
    }
}

pub proof fn lemma_counts_concat(a: Seq<ControlMessage>, b: Seq<ControlMessage>)
    ensures
        jobs_of(a + b) == jobs_of(a) + jobs_of(b),
        terminate_count(a + b) == terminate_count(a) + terminate_count(b),
    decreases b.len(),
{
    if b.len() == 0 {
        assert(a + b =~= a);
        assert(jobs_of(a) + Seq::<u64>::empty() =~= jobs_of(a));
    } else {
        lemma_counts_concat(a, b.drop_last());
        assert((a + b).drop_last() =~= a + b.drop_last());
        assert((a + b).last() == b.last());
        match b.last() {
            ControlMessage::NewJob(j) => {
                assert(jobs_of(a) + jobs_of(b.drop_last()) + seq![j] =~= jobs_of(a) + (
                jobs_of(b.drop_last()) + seq![j]));
            },
            ControlMessage::Terminate => {
                assert(jobs_of(a) + jobs_of(b.drop_last()) + Seq::<u64>::empty() =~= jobs_of(
                    a,
                ) + (jobs_of(b.drop_last()) + Seq::<u64>::empty()));
            },
        }
    }
}

pub proof fn lemma_counts_of_jobs(jobs: Seq<u64>)
    ensures
        jobs_of(jobs.map_values(|j: u64| ControlMessage::NewJob(j))) == jobs,
        terminate_count(jobs.map_values(|j: u64| ControlMessage::NewJob(j))) == 0,
    decreases jobs.len(),
{
    let q = jobs.map_values(|j: u64| ControlMessage::NewJob(j));
    if jobs.len() == 0 {
        assert(jobs_of(q) =~= jobs);
    } else {
        lemma_counts_of_jobs(jobs.drop_last());
        assert(q.drop_last() =~= jobs.drop_last().map_values(
            |j: u64| ControlMessage::NewJob(j),
        ));
        assert(q.last() == ControlMessage::NewJob(jobs.last()));
        assert(jobs.drop_last() + seq![jobs.last()] =~= jobs);
    }
}

pub proof fn lemma_counts_of_terminates(n: nat)
    ensures
        jobs_of(terminates(n)) == Seq::<u64>::empty(),
        terminate_count(terminates(n)) == n,
    decreases n,
{
    if n == 0 {
        assert(terminates(0) =~= Seq::<ControlMessage>::empty());
    } else {
        lemma_counts_of_terminates((n - 1) as nat);
        assert(terminates(n).drop_last() =~= terminates((n - 1) as nat));
        assert(terminates(n).last() == ControlMessage::Terminate);
        assert(jobs_of(terminates((n - 1) as nat)) + Seq::<u64>::empty() =~= Seq::<
            u64,
        >::empty());
    }
}

/// Submitting jobs to a pool and shutting it down queues every job exactly
/// once, in submission order, together with exactly one terminate sentinel
/// per worker; since each queued message is claimed by exactly one worker
/// and a job runs exactly when its message is claimed, draining the queue
/// runs every submitted job exactly once.
pub proof fn law_pool_runs_each_job_once(jobs: Seq<u64>, size: nat)
    ensures
        jobs_of(submission_queue(jobs, size)) == jobs,
        terminate_count(submission_queue(jobs, size)) == size,
{
    let mapped = jobs.map_values(|j: u64| ControlMessage::NewJob(j));
    lemma_counts_concat(mapped, terminates(size));
    lemma_counts_of_jobs(jobs);
    lemma_counts_of_terminates(size);
    assert(jobs + Seq::<u64>::empty() =~= jobs);
}

/// A fixed-size pool of workers sharing one first-in first-out queue of
/// control messages.
pub struct Pool {
    pub workers: Vec<Worker>,
    pub queue: Vec<ControlMessage>,
}

impl Pool {
    /// Builds a pool of `size` workers, numbered in order, with an empty
    /// queue. A pool of no workers cannot be built.
    pub fn new(size: usize) -> (r: Pool)
        requires
            size >= 1,
        ensures
            r.workers@.len() == size,
            forall|i: int| 0 <= i < size ==> r.workers@[i].id == i,
            r.queue@ == Seq::<ControlMessage>::empty(),
    {
        let mut workers: Vec<Worker> = Vec::new();
        let mut id: usize = 0;
        while id < size
            invariant
                0 <= id <= size,
                workers@.len() == id,
                forall|i: int| 0 <= i < id ==> workers@[i].id == i,
            decreases size - id,
        {
            workers.push(Worker { id });
            id = id + 1;
        }
        Pool { workers, queue: Vec::new() }
    }

    /// Submits a job: its message joins the back of the queue, and the
    /// caller does not wait.
    pub fn execute(&mut self, job: u64)
        ensures
            final(self).queue@ == old(self).queue@.push(ControlMessage::NewJob(job)),
            final(self).workers@ == old(self).workers@,
    {
        self.queue.push(ControlMessage::NewJob(job));
    }

    /// Claims the message at the front of the queue, if any.
    pub fn claim(&mut self) -> (r: Option<ControlMessage>)
        ensures
            final(self).workers@ == old(self).workers@,
            (match r {
                Some(msg) => old(self).queue@.len() > 0 && msg == old(self).queue@[0]
                    && final(self).queue@ == old(self).queue@.drop_first(),
                None => old(self).queue@.len() == 0 && final(self).queue@ == old(
                    self,
                ).queue@,
            }),
    {
        if self.queue.len() == 0 {
            None
        } else {
            let msg = self.queue.remove(0);
            proof {
                assert(self.queue@ =~= old(self).queue@.drop_first());
            }
            Some(msg)
        }
    }

    /// Begins teardown: exactly one terminate sentinel per worker joins
    /// the back of the queue, after every job already submitted.
    pub fn shutdown(&mut self)
        ensures
            final(self).workers@ == old(self).workers@,
            final(self).queue@ == old(self).queue@ + terminates(
                old(self).workers@.len(),
            ),
    {
        let mut sent: usize = 0;
        let count = self.workers.len();
        while sent < count
            invariant
                0 <= sent <= count,
                self.workers@ == old(self).workers@,
                count == old(self).workers@.len(),
                self.queue@ == old(self).queue@ + terminates(sent as nat),
            decreases count - sent,
        {
            self.queue.push(ControlMessage::Terminate);
            proof {
                assert(self.queue@ =~= old(self).queue@ + terminates((sent + 1) as nat));
            }
            sent = sent + 1;
        }
    }

    /// What a worker does with one claimed message: run the job, or exit
    /// after consuming the one terminate sentinel meant for it.
    pub fn worker_step(msg: ControlMessage) -> (a: WorkerAction)
        ensures
            a == step_of(msg),
    {
        match msg {
            ControlMessage::NewJob(job) => WorkerAction::Run(job),
            ControlMessage::Terminate => WorkerAction::Exit,
        }
    }
}

} // verus!
