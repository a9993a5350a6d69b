//! The worker pool: a fixed number of workers sharing one FIFO job queue
//! with a single consumer slot, cooperative shutdown through one terminate
//! message per worker, and the guarantee that every job accepted before
//! shutdown is handed out exactly once, in submission order.
//!
//! The pool is modelled operationally: jobs are carried by the token their
//! submitter chose, and the process edge, which owns the actual threads and
//! connection-handling closures, drives this state machine — `execute` when
//! the listener submits, `claim` when a worker takes the next message.
use vstd::prelude::*;
use super::error::{Error, ErrorKind};

verus! {

/// One message on the pool's queue: either a job, named by its token, or the
/// terminate instruction a worker stops on.
#[derive(Clone, Copy, PartialEq, Eq, Debug)]
pub enum Message {
    /// a submitted job, carried by its token
    NewJob(u64),

    /// the poison pill: the worker that claims it stops
    Terminate,
}

/// The job tokens of a message sequence, in order, terminate messages
/// left out.
pub open spec fn jobs_of(q: Seq<Message>) -> Seq<u64>
    decreases q.len(),
{
    if q.len() == 0 {
        Seq::empty()
    } else {
        match q[0] {
            Message::NewJob(j) => seq![j] + jobs_of(q.drop_first()),
            Message::Terminate => jobs_of(q.drop_first()),
        }
    }
}

/// How many terminate messages a message sequence holds.
pub open spec fn term_count(q: Seq<Message>) -> nat
    decreases q.len(),
{
    if q.len() == 0 {
        0
    } else {
        match q[0] {
            Message::NewJob(j) => term_count(q.drop_first()),
            Message::Terminate => 1 + term_count(q.drop_first()),
        }
    }
}

/// `n` terminate messages, one per worker.
pub open spec fn terminates(n: nat) -> Seq<Message> {
    Seq::new(n, |i: int| Message::Terminate)
}

/// Appending a job extends the job tokens by that token.
proof fn lemma_jobs_of_push_job(q: Seq<Message>, j: u64)
    ensures
        jobs_of(q.push(Message::NewJob(j))) == jobs_of(q).push(j),
        term_count(q.push(Message::NewJob(j))) == term_count(q),
    decreases q.len(),
{
    reveal_with_fuel(jobs_of, 3);
    reveal_with_fuel(term_count, 3);
    let q2 = q.push(Message::NewJob(j));
    if q.len() == 0 {
        assert(q2.drop_first() =~= Seq::<Message>::empty());
        assert(jobs_of(q2) =~= jobs_of(q).push(j));
    } else {
        assert(q2.drop_first() =~= q.drop_first().push(Message::NewJob(j)));
        lemma_jobs_of_push_job(q.drop_first(), j);
        assert(jobs_of(q2) =~= jobs_of(q).push(j));
    }
}

/// Appending terminate messages leaves the job tokens unchanged.
proof fn lemma_jobs_of_append_terminates(q: Seq<Message>, n: nat)
    ensures
        jobs_of(q + terminates(n)) == jobs_of(q),
        term_count(q + terminates(n)) == term_count(q) + n,
    decreases q.len(), n,
{
    if q.len() == 0 {
        if n == 0 {
            assert(q + terminates(n) =~= Seq::empty());
        } else {
            let rest = q + terminates((n - 1) as nat);
            assert((q + terminates(n)).drop_first() =~= rest);
            lemma_jobs_of_append_terminates(q, (n - 1) as nat);
        }
    } else {
        assert((q + terminates(n)).drop_first() =~= q.drop_first() + terminates(n));
        lemma_jobs_of_append_terminates(q.drop_first(), n);
    }
}

/// The fixed-size worker pool, as the state of its shared queue.
///
/// `accepting` is whether the queue's consuming side is still there: once
/// shutdown has begun, no further job is accepted. The ghost histories
/// record every token `execute` accepted and every token `claim` handed to
/// a worker; well-formedness ties them to the queue, which is what makes
/// the exactly-once guarantee provable.
pub struct ThreadPool {
    size: usize,
    do_verbose: bool,
    accepting: bool,
    queue: Vec<Message>,
    stopped: usize,
    submitted: Ghost<Seq<u64>>,
    claimed: Ghost<Seq<u64>>,
}

impl ThreadPool {
    /// The number of workers the pool was created with.
    pub closed spec fn spec_size(&self) -> usize {
        self.size
    }

    /// Whether the pool is in verbose mode.
    pub closed spec fn spec_verbose(&self) -> bool {
        self.do_verbose
    }

    /// Whether the queue still accepts jobs (shutdown has not begun).
    pub closed spec fn spec_accepting(&self) -> bool {
        self.accepting
    }

    /// The messages waiting in the queue, front first.
    pub closed spec fn spec_queue(&self) -> Seq<Message> {
        self.queue@
    }

    /// How many workers have claimed their terminate message and stopped.
    pub closed spec fn spec_stopped(&self) -> usize {
        self.stopped
    }

    /// Every job token `execute` has accepted, in submission order.
    pub closed spec fn spec_submitted(&self) -> Seq<u64> {
        self.submitted@
    }

    /// Every job token handed to a worker, in the order they were claimed.
    pub closed spec fn spec_claimed(&self) -> Seq<u64> {
        self.claimed@
    }

    /// Well-formedness: the claimed history followed by the queued jobs is
    /// exactly the submission history; terminate messages exist only during
    /// shutdown, stand after every job, and one is owed to each worker that
    /// has not stopped yet.
    pub closed spec fn wf(&self) -> bool {
        &&& self.claimed@ + jobs_of(self.queue@) == self.submitted@
        &&& forall|i: int, j: int|
            0 <= i < j < self.queue@.len() && self.queue@[i] is Terminate
                ==> self.queue@[j] is Terminate
        &&& if self.accepting {
            term_count(self.queue@) == 0 && self.stopped == 0
        } else {
            self.stopped + term_count(self.queue@) == self.size
        }
    }

    /// Creates a new pool with the given number of workers.
    ///
    /// Construction succeeds exactly when `size > 0`; for `size == 0` it
    /// fails with `PoolToSmall`.
    pub fn new(size: usize) -> (r: Result<ThreadPool, Error>)
        ensures
            size == 0 ==> (r matches Err(e) && e.spec_kind() == ErrorKind::PoolToSmall),
            size > 0 ==> (r matches Ok(p) && p.wf() && p.spec_size() == size && p.spec_accepting()
                && !p.spec_verbose() && p.spec_queue() == Seq::<Message>::empty()
                && p.spec_submitted() == Seq::<u64>::empty()
                && p.spec_claimed() == Seq::<u64>::empty() && p.spec_stopped() == 0),
    {
        if size == 0 {
            return Err(Error::new(ErrorKind::PoolToSmall));
        }
        Ok(
            ThreadPool {
                size,
                do_verbose: false,
                accepting: true,
                queue: Vec::new(),
                stopped: 0,
                submitted: Ghost(Seq::empty()),
                claimed: Ghost(Seq::empty()),
            },
        )
    }

    /// Sets the pool into verbose mode.
    pub fn verbose(&mut self)
        requires
            old(self).wf(),
        ensures
            final(self).wf(),
            final(self).spec_verbose(),
            final(self).spec_size() == old(self).spec_size(),
            final(self).spec_accepting() == old(self).spec_accepting(),
            final(self).spec_queue() == old(self).spec_queue(),
            final(self).spec_stopped() == old(self).spec_stopped(),
            final(self).spec_submitted() == old(self).spec_submitted(),
            final(self).spec_claimed() == old(self).spec_claimed(),
    {
        self.do_verbose = true;
    }

    /// Sets the pool into the given verbose mode.
    pub fn set_verbose_mode(&mut self, mode: bool)
        requires
            old(self).wf(),
        ensures
            final(self).wf(),
            final(self).spec_verbose() == mode,
            final(self).spec_size() == old(self).spec_size(),
            final(self).spec_accepting() == old(self).spec_accepting(),
            final(self).spec_queue() == old(self).spec_queue(),
            final(self).spec_stopped() == old(self).spec_stopped(),
            final(self).spec_submitted() == old(self).spec_submitted(),
            final(self).spec_claimed() == old(self).spec_claimed(),
    {
        self.do_verbose = mode;
    }

    /// Checks whether the pool is running in verbose mode.
    pub fn is_verbose(&self) -> (v: bool)
        ensures
            v == self.spec_verbose(),
    {
        self.do_verbose
    }

    /// Returns the number of workers in the pool.
    pub fn get_threads(&self) -> (n: usize)
        ensures
            n == self.spec_size(),
    {
        self.size
    }

    /// Submits a job, by its token, to the queue.
    ///
    /// While the pool accepts work the job is appended to the queue; once
    /// shutdown has begun the pool is unchanged and `execute` fails with
    /// `PoolSendError(true)`, the mark of a lost job message.
    pub fn execute(&mut self, job: u64) -> (r: Result<(), Error>)
        requires
            old(self).wf(),
        ensures
            final(self).wf(),
            final(self).spec_size() == old(self).spec_size(),
            final(self).spec_verbose() == old(self).spec_verbose(),
            final(self).spec_accepting() == old(self).spec_accepting(),
            final(self).spec_stopped() == old(self).spec_stopped(),
            final(self).spec_claimed() == old(self).spec_claimed(),
            old(self).spec_accepting() ==> r is Ok && final(self).spec_queue() == old(self).spec_queue().push(Message::NewJob(job)) && final(self).spec_submitted() == old(self).spec_submitted().push(job),
            !old(self).spec_accepting() ==> (r matches Err(e) && e.spec_kind()
                == ErrorKind::PoolSendError(true)) && final(self).spec_queue() == old(self).spec_queue() && final(self).spec_submitted() == old(self).spec_submitted(),
    {
        if !self.accepting {
            return Err(Error::new(ErrorKind::PoolSendError(true)));
        }
        self.queue.push(Message::NewJob(job));
        proof {
            self.submitted@ = self.submitted@.push(job);
            lemma_jobs_of_push_job(old(self).queue@, job);
            assert(self.claimed@ + jobs_of(self.queue@) =~= self.submitted@);
            lemma_terminate_positions(old(self).queue@);
            assert forall|i: int| 0 <= i < self.queue@.len() implies self.queue@[i] is NewJob by {
                if i < old(self).queue@.len() {
                    assert(self.queue@[i] == old(self).queue@[i]);
                }
            }
        }
        Ok(())
    }

    /// Hands out the message at the front of the queue: the single consumer
    /// slot every worker takes turns on.
    ///
    /// A claimed job moves, exactly once, from the queue to the claimed
    /// history; a claimed terminate message stops one worker. An empty
    /// queue leaves the pool unchanged.
    pub fn claim(&mut self) -> (m: Option<Message>)
        requires
            old(self).wf(),
        ensures
            final(self).wf(),
            final(self).spec_size() == old(self).spec_size(),
            final(self).spec_verbose() == old(self).spec_verbose(),
            final(self).spec_accepting() == old(self).spec_accepting(),
            final(self).spec_submitted() == old(self).spec_submitted(),
            old(self).spec_queue().len() == 0 ==> m is None && final(self).spec_queue() == old(self).spec_queue() && final(self).spec_claimed() == old(self).spec_claimed() && final(self).spec_stopped() == old(self).spec_stopped(),
            old(self).spec_queue().len() > 0 ==> m == Some(old(self).spec_queue()[0]) && final(self).spec_queue() == old(self).spec_queue().drop_first(),
            old(self).spec_queue().len() > 0 ==> (old(self).spec_queue()[0] matches Message::NewJob(j)
                ==> final(self).spec_claimed() == old(self).spec_claimed().push(j)
                    && final(self).spec_stopped() == old(self).spec_stopped()),
            old(self).spec_queue().len() > 0 && old(self).spec_queue()[0] is Terminate ==> final(self).spec_claimed() == old(self).spec_claimed() && final(self).spec_stopped() == old(self).spec_stopped() + 1,
    {
        if self.queue.len() == 0 {
            return None;
        }
        let msg = self.queue.remove(0);
        proof {
            assert(self.queue@ =~= old(self).queue@.drop_first());
        }
        match msg {
            Message::NewJob(j) => {
                proof {
                    self.claimed@ = self.claimed@.push(j);
                    assert(old(self).claimed@ + jobs_of(old(self).queue@) == old(self).submitted@);
                    assert(jobs_of(old(self).queue@) == seq![j] + jobs_of(self.queue@));
                    assert(self.claimed@ + jobs_of(self.queue@) =~= self.submitted@);
                }
                Some(Message::NewJob(j))
            },
            Message::Terminate => {
                proof {
                    assert(term_count(old(self).queue@) > 0);
                }
                self.stopped = self.stopped + 1;
                Some(Message::Terminate)
            },
        }
    }

    /// Begins shutdown: stops accepting jobs and appends one terminate
    /// message per worker.
    ///
    /// Every job already queued keeps its place in front of every terminate
    /// message, so a worker claims all remaining jobs before it stops:
    /// shutdown loses no in-flight or pending work.
    pub fn shutdown(&mut self)
        requires
            old(self).wf(),
            old(self).spec_accepting(),
        ensures
            final(self).wf(),
            !final(self).spec_accepting(),
            final(self).spec_size() == old(self).spec_size(),
            final(self).spec_verbose() == old(self).spec_verbose(),
            final(self).spec_stopped() == old(self).spec_stopped(),
            final(self).spec_submitted() == old(self).spec_submitted(),
            final(self).spec_claimed() == old(self).spec_claimed(),
            final(self).spec_queue() == old(self).spec_queue() + terminates(
                old(self).spec_size() as nat,
            ),
            forall|i: int, j: int|
                0 <= i < final(self).spec_queue().len() && 0 <= j < final(self).spec_queue().len() && final(self).spec_queue()[i] is NewJob && final(self).spec_queue()[j] is Terminate ==> i < j,
    {
        proof {
            lemma_terminate_positions(old(self).queue@);
        }
        self.accepting = false;
        let ghost orig = self.queue@;
        proof {
            assert(orig + terminates(0) =~= orig);
        }
        let mut k: usize = 0;
        while k < self.size
            invariant
                self.queue@ == orig + terminates(k as nat),
                k <= self.size,
                !self.accepting,
                self.size == old(self).size,
                self.do_verbose == old(self).do_verbose,
                self.stopped == old(self).stopped,
                self.submitted == old(self).submitted,
                self.claimed == old(self).claimed,
            decreases self.size - k,
        {
            self.queue.push(Message::Terminate);
            proof {
                assert(self.queue@ =~= orig + terminates((k + 1) as nat));
            }
            k = k + 1;
        }
        proof {
            lemma_jobs_of_append_terminates(orig, self.size as nat);
            assert(self.claimed@ + jobs_of(self.queue@) =~= self.submitted@);
            lemma_terminate_positions(orig);
            assert forall|i: int, j: int|
                0 <= i < self.queue@.len() && 0 <= j < self.queue@.len()
                    && self.queue@[i] is NewJob && self.queue@[j] is Terminate implies i < j by {
                if j < orig.len() {
                    lemma_term_count_at(orig, j);
                }
            }
        }
    }

    /// Claims messages until the queue is empty, returning the tokens of
    /// every job handed out, in order.
    ///
    /// This is the workers' collective consumption of the queue run to the
    /// end: the returned tokens are exactly the jobs that were pending, each
    /// exactly once, in submission order.
    pub fn drain(&mut self) -> (jobs: Vec<u64>)
        requires
            old(self).wf(),
        ensures
            final(self).wf(),
            final(self).spec_size() == old(self).spec_size(),
            final(self).spec_verbose() == old(self).spec_verbose(),
            final(self).spec_accepting() == old(self).spec_accepting(),
            final(self).spec_submitted() == old(self).spec_submitted(),
            final(self).spec_queue() == Seq::<Message>::empty(),
            jobs@ == jobs_of(old(self).spec_queue()),
            final(self).spec_claimed() == old(self).spec_claimed() + jobs@,
            final(self).spec_stopped() == old(self).spec_stopped() + term_count(
                old(self).spec_queue(),
            ),
    {
        let mut jobs: Vec<u64> = Vec::new();
        loop
            invariant
                self.wf(),
                self.spec_size() == old(self).spec_size(),
                self.spec_verbose() == old(self).spec_verbose(),
                self.spec_accepting() == old(self).spec_accepting(),
                self.spec_submitted() == old(self).spec_submitted(),
                jobs_of(old(self).spec_queue()) == jobs@ + jobs_of(self.spec_queue()),
                self.spec_claimed() == old(self).spec_claimed() + jobs@,
                self.spec_stopped() + term_count(self.spec_queue()) == old(self).spec_stopped()
                    + term_count(old(self).spec_queue()),
            decreases self.spec_queue().len(),
        {
            let m = self.claim();
            match m {
                None => {
                    proof {
                        assert(jobs_of(old(self).spec_queue()) =~= jobs@);
                        assert(self.spec_claimed() =~= old(self).spec_claimed() + jobs@);
                    }
                    return jobs;
                },
                Some(Message::NewJob(j)) => {
                    jobs.push(j);
                },
                Some(Message::Terminate) => {
                },
            }
        }
    }
}

/// In a well-formed queue the terminate messages form a suffix, so every
/// position below the first terminate holds a job.
proof fn lemma_terminate_positions(q: Seq<Message>)
    requires
        term_count(q) == 0,
    ensures
        forall|i: int| 0 <= i < q.len() ==> q[i] is NewJob,
    decreases q.len(),
{
    if q.len() > 0 {
        lemma_terminate_positions(q.drop_first());
        assert forall|i: int| 0 <= i < q.len() implies q[i] is NewJob by {
            if i > 0 {
                assert(q.drop_first()[i - 1] == q[i]);
            }
        }
    }
}

/// A terminate message at some position means the sequence counts at least
/// one terminate.
proof fn lemma_term_count_at(q: Seq<Message>, j: int)
    requires
        0 <= j < q.len(),
        q[j] is Terminate,
    ensures
        term_count(q) > 0,
    decreases q.len(),
{
    if j > 0 {
        assert(q.drop_first()[j - 1] == q[j]);
        lemma_term_count_at(q.drop_first(), j - 1);
    }
}

/// Exactly-once execution: once the queue holds no further job, the claimed
/// history is exactly the submission history — every job submitted before
/// shutdown was handed to a worker exactly once, in submission order.
pub proof fn lemma_drained_pool_ran_each_job_once(p: &ThreadPool)
    requires
        p.wf(),
        jobs_of(p.spec_queue()).len() == 0,
    ensures
        p.spec_claimed() == p.spec_submitted(),
{
    assert(p.spec_claimed() + jobs_of(p.spec_queue()) =~= p.spec_claimed());
}

/// Clean shutdown: when the queue has been fully consumed after shutdown,
/// every worker has claimed its terminate message and stopped, so joining
/// them all terminates.
pub proof fn lemma_consumed_pool_all_workers_stopped(p: &ThreadPool)
    requires
        p.wf(),
        !p.spec_accepting(),
        p.spec_queue().len() == 0,
    ensures
        p.spec_stopped() == p.spec_size(),
{
}

} // verus!
