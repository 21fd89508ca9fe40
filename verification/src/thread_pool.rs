//! The worker pool: a fixed set of workers looping on one shared job queue,
//! with an orderly shutdown protocol.
//!
//! The pool is a verified state machine. Each worker's loop iteration is the
//! transition `worker_step`: dequeue one message and either run the named job,
//! exit on `Terminate`, or keep waiting. `execute` enqueues a job; `shutdown`
//! enqueues one `Terminate` per worker. The pool's invariant ties the ghost
//! histories of submitted and executed jobs to the queue's contents, which
//! yields the exactly-once, ordering and teardown laws stated at the bottom.

use vstd::prelude::*;
use crate::queue::JobQueue;
use crate::queue::Message;
use crate::queue::Received;
use crate::queue::job_ids;
use crate::queue::terminate_count;
use crate::queue::lemma_job_ids_push;
use crate::queue::lemma_terminate_count_push;

verus! {

/// What a worker does after one look at the queue.
#[derive(Clone, Copy, PartialEq, Eq, Structural, Debug)]
pub enum WorkerAction {
    /// Run the named job to completion on this worker's own thread.
    RunJob(u64),
    /// Leave the worker loop; the worker's thread ends.
    Exit,
    /// Nothing was ready: keep waiting on the queue.
    Idle,
}

/// The decision a worker takes on the outcome of one dequeue: run a new job,
/// exit on `Terminate`, exit likewise on a hung-up queue, otherwise keep
/// waiting. This is the whole of the worker loop's dispatch logic.
pub fn worker_decision(r: Received) -> (a: WorkerAction)
    ensures
        r matches Received::Message(m) ==> (a == (match m {
            Message::NewJob(j) => WorkerAction::RunJob(j),
            Message::Terminate => WorkerAction::Exit,
        })),
        r is Disconnected ==> a == WorkerAction::Exit,
        r is Empty ==> a == WorkerAction::Idle,
{
    match r {
        Received::Message(Message::NewJob(j)) => WorkerAction::RunJob(j),
        Received::Message(Message::Terminate) => WorkerAction::Exit,
        Received::Disconnected => WorkerAction::Exit,
        Received::Empty => WorkerAction::Idle,
    }
}

/// One worker: a small integer id and the state of its background thread,
/// which is running until the worker dequeues a terminal signal.
struct Worker {
    id: usize,
    running: bool,
}

/// How many workers of `ws` have exited.
spec fn exited_count(ws: Seq<Worker>) -> nat
    decreases ws.len(),
{
    if ws.len() == 0 {
        0
    } else {
        (if ws[0].running { 0nat } else { 1nat }) + exited_count(ws.drop_first())
    }
}

proof fn lemma_exited_count_push(ws: Seq<Worker>, w: Worker)
    ensures
        exited_count(ws.push(w)) == exited_count(ws) + (if w.running { 0nat } else { 1nat }),
    decreases ws.len(),
{
    let t = ws.push(w);
    assert(exited_count(Seq::<Worker>::empty()) == 0);
    if ws.len() == 0 {
        assert(t.drop_first() =~= Seq::<Worker>::empty());
        assert(ws =~= Seq::<Worker>::empty());
    } else {
        assert(t.drop_first() =~= ws.drop_first().push(w));
        lemma_exited_count_push(ws.drop_first(), w);
    }
}

proof fn lemma_exited_count_update(ws: Seq<Worker>, i: int, w: Worker)
    requires
        0 <= i < ws.len(),
    ensures
        exited_count(ws.update(i, w)) + (if ws[i].running { 0nat } else { 1nat })
            == exited_count(ws) + (if w.running { 0nat } else { 1nat }),
    decreases ws.len(),
{
    let t = ws.update(i, w);
    if i == 0 {
        assert(t.drop_first() =~= ws.drop_first());
        assert(t[0] == w);
    } else {
        assert(t[0] == ws[0]);
        assert(t.drop_first() =~= ws.drop_first().update(i - 1, w));
        lemma_exited_count_update(ws.drop_first(), i - 1, w);
    }
}

proof fn lemma_exited_count_le(ws: Seq<Worker>)
    ensures
        exited_count(ws) <= ws.len(),
        exited_count(ws) == ws.len() ==> (forall|i: int|
            0 <= i < ws.len() ==> !(#[trigger] ws[i]).running),
    decreases ws.len(),
{
    if ws.len() == 0 {
    } else {
        lemma_exited_count_le(ws.drop_first());
        if exited_count(ws) == ws.len() {
            assert(!ws[0].running);
            assert(exited_count(ws.drop_first()) == ws.drop_first().len());
            assert forall|i: int| 0 <= i < ws.len() implies !(#[trigger] ws[i]).running by {
                if i >= 1 {
                    assert(ws[i] == ws.drop_first()[i - 1]);
                }
            }
        }
    }
}

/// The ids of the executed jobs, in execution (dequeue) order.
pub open spec fn record_ids(s: Seq<(u64, usize)>) -> Seq<u64> {
    s.map_values(|e: (u64, usize)| e.0)
}

/// `n` terminal signals, one per worker.
pub open spec fn terminate_seq(n: nat) -> Seq<Message> {
    Seq::new(n, |i: int| Message::Terminate)
}

/// A fixed-size pool of workers sharing one FIFO job queue.
///
/// The executable state mirrors a running pool: the workers, the queue, and
/// whether shutdown has been signalled. The ghost state records the full
/// history of submitted jobs and of executed jobs (each with the worker that
/// ran it), which the laws below are stated over.
pub struct ThreadPool {
    workers: Vec<Worker>,
    queue: JobQueue,
    shutdown: bool,
    submitted: Ghost<Seq<u64>>,
    executed: Ghost<Seq<(u64, usize)>>,
}

impl ThreadPool {
    /// How many workers the pool was built with; fixed for its whole life.
    pub closed spec fn num_workers(self) -> nat {
        self.workers@.len()
    }

    /// Whether worker `i`'s thread is still running.
    pub closed spec fn worker_running(self, i: int) -> bool {
        self.workers@[i].running
    }

    /// Whether every worker's thread has exited.
    pub closed spec fn all_exited(self) -> bool {
        forall|i: int| 0 <= i < self.workers@.len() ==> !(#[trigger] self.workers@[i]).running
    }

    /// The messages still queued, oldest first.
    pub closed spec fn pending(self) -> Seq<Message> {
        self.queue.messages()
    }

    /// Every job id ever submitted, in submission order.
    pub closed spec fn submitted(self) -> Seq<u64> {
        self.submitted@
    }

    /// Every executed job, in execution order, each with the worker that ran it.
    pub closed spec fn executed(self) -> Seq<(u64, usize)> {
        self.executed@
    }

    /// The ids of the executed jobs, in execution order.
    pub open spec fn executed_job_ids(self) -> Seq<u64> {
        record_ids(self.executed())
    }

    /// Whether shutdown has been signalled.
    pub closed spec fn shutdown_started(self) -> bool {
        self.shutdown
    }

    /// The pool's invariant, established by `new` and preserved by every
    /// transition:
    /// - there is at least one worker, and each holds its own id;
    /// - the queue counts one live consumer per running worker, and the
    ///   producer side stays open for the pool's whole life;
    /// - the executed jobs followed by the queued ones are exactly the
    ///   submitted jobs, in order (nothing lost, duplicated or invented);
    /// - terminal signals still queued plus workers already exited add up to
    ///   one per worker once shutdown is signalled, and to none before;
    /// - every execution record names a worker of this pool.
    pub closed spec fn inv(self) -> bool {
        &&& 0 < self.workers@.len()
        &&& (forall|i: int| 0 <= i < self.workers@.len() ==> (#[trigger] self.workers@[i]).id == i)
        &&& self.queue.consumers() + exited_count(self.workers@) == self.workers@.len()
        &&& self.queue.producer_open()
        &&& record_ids(self.executed@) + job_ids(self.queue.messages()) == self.submitted@
        &&& terminate_count(self.queue.messages()) + exited_count(self.workers@)
            == (if self.shutdown { self.workers@.len() } else { 0nat })
        &&& (forall|k: int| 0 <= k < self.executed@.len()
            ==> (#[trigger] self.executed@[k]).1 < self.workers@.len())
    }

    /// Builds a pool of exactly `size` workers, all running, sharing one
    /// fresh, empty queue. A pool of no workers is a caller error.
    pub fn new(size: usize) -> (pool: ThreadPool)
        requires
            size > 0,
        ensures
            pool.inv(),
            pool.num_workers() == size,
            forall|i: int| 0 <= i < size ==> pool.worker_running(i),
            pool.pending() == Seq::<Message>::empty(),
            pool.submitted() == Seq::<u64>::empty(),
            pool.executed() == Seq::<(u64, usize)>::empty(),
            !pool.shutdown_started(),
    {
        let queue = JobQueue::new(size);
        let mut workers: Vec<Worker> = Vec::new();
        let mut i: usize = 0;
        while i < size
            invariant
                i <= size,
                workers@.len() == i,
                forall|k: int| 0 <= k < i
                    ==> (#[trigger] workers@[k]).id == k && workers@[k].running,
                exited_count(workers@) == 0,
            decreases size - i,
        {
            let ghost prev = workers@;
            let w = Worker { id: i, running: true };
            proof {
                lemma_exited_count_push(prev, w);
            }
            workers.push(w);
            i = i + 1;
        }
        let pool = ThreadPool {
            workers,
            queue,
            shutdown: false,
            submitted: Ghost(Seq::empty()),
            executed: Ghost(Seq::empty()),
        };
        proof {
            assert(job_ids(Seq::<Message>::empty()) == Seq::<u64>::empty());
            assert(terminate_count(Seq::<Message>::empty()) == 0);
            assert(record_ids(Seq::<(u64, usize)>::empty()) =~= Seq::<u64>::empty());
            assert(record_ids(pool.executed@) + job_ids(pool.queue.messages())
                =~= pool.submitted@);
        }
        pool
    }

    /// Submits the job named `job`: it is queued behind every message already
    /// pending and will be run, exactly once, by whichever worker dequeues it.
    /// Returns at once, without waiting for the job to run.
    pub fn execute(&mut self, job: u64)
        requires
            old(self).inv(),
            !old(self).shutdown_started(),
        ensures
            final(self).inv(),
            !final(self).shutdown_started(),
            final(self).num_workers() == old(self).num_workers(),
            final(self).pending() == old(self).pending().push(Message::NewJob(job)),
            final(self).submitted() == old(self).submitted().push(job),
            final(self).executed() == old(self).executed(),
            forall|i: int| 0 <= i < old(self).num_workers()
                ==> final(self).worker_running(i) == old(self).worker_running(i),
    {
        proof {
            assert(self.queue.consumers() > 0);
        }
        let r = self.queue.send(Message::NewJob(job));
        match r {
            Ok(()) => {
                proof {
                    self.submitted@ = self.submitted@.push(job);
                    lemma_job_ids_push(old(self).queue.messages(), Message::NewJob(job));
                    lemma_terminate_count_push(old(self).queue.messages(), Message::NewJob(job));
                    assert(record_ids(self.executed@) + job_ids(self.queue.messages())
                        =~= self.submitted@);
                }
            }
            Err(_) => {
                proof {
                    assert(false);
                }
            }
        }
    }

    /// Signals shutdown: enqueues exactly one terminal signal per worker,
    /// behind every job already queued, so each worker dequeues at least one
    /// of them after the pending jobs are drained. Signalled once per pool.
    pub fn shutdown(&mut self)
        requires
            old(self).inv(),
            !old(self).shutdown_started(),
        ensures
            final(self).inv(),
            final(self).shutdown_started(),
            final(self).num_workers() == old(self).num_workers(),
            final(self).pending() == old(self).pending() + terminate_seq(old(self).num_workers()),
            job_ids(final(self).pending()) == job_ids(old(self).pending()),
            final(self).submitted() == old(self).submitted(),
            final(self).executed() == old(self).executed(),
            forall|i: int| 0 <= i < old(self).num_workers()
                ==> final(self).worker_running(i) == old(self).worker_running(i),
    {
        let n = self.workers.len();
        let mut i: usize = 0;
        while i < n
            invariant
                i <= n,
                n == old(self).num_workers(),
                self.workers@ == old(self).workers@,
                self.shutdown == old(self).shutdown,
                !old(self).shutdown_started(),
                old(self).inv(),
                self.submitted@ == old(self).submitted@,
                self.executed@ == old(self).executed@,
                self.queue.consumers() == old(self).queue.consumers(),
                self.queue.consumers() == n,
                self.queue.producer_open(),
                self.queue.messages() == old(self).queue.messages() + terminate_seq(i as nat),
                terminate_count(self.queue.messages())
                    == terminate_count(old(self).queue.messages()) + i,
                job_ids(self.queue.messages()) == job_ids(old(self).queue.messages()),
            decreases n - i,
        {
            let ghost prev = self.queue.messages();
            let r = self.queue.send(Message::Terminate);
            match r {
                Ok(()) => {
                    proof {
                        lemma_job_ids_push(prev, Message::Terminate);
                        lemma_terminate_count_push(prev, Message::Terminate);
                        assert(prev.push(Message::Terminate)
                            =~= old(self).queue.messages() + terminate_seq((i + 1) as nat));
                    }
                }
                Err(_) => {
                    proof {
                        assert(false);
                    }
                }
            }
            i = i + 1;
        }
        self.shutdown = true;
        proof {
            assert(record_ids(self.executed@) + job_ids(self.queue.messages())
                =~= self.submitted@);
        }
    }

    /// One iteration of a worker's loop: worker `wid` takes exclusive access
    /// to the shared queue for the duration of one dequeue, then acts on what
    /// it got. The oldest queued message — and no other — is consumed: a job
    /// message makes this worker (and only it) run that job; a terminal
    /// signal makes the worker exit; an empty queue leaves everything as it
    /// was, and the worker waits.
    pub fn worker_step(&mut self, wid: usize) -> (action: WorkerAction)
        requires
            old(self).inv(),
            wid < old(self).num_workers(),
            old(self).worker_running(wid as int),
        ensures
            final(self).inv(),
            final(self).num_workers() == old(self).num_workers(),
            final(self).submitted() == old(self).submitted(),
            final(self).shutdown_started() == old(self).shutdown_started(),
            old(self).pending().len() == 0 ==> {
                &&& action == WorkerAction::Idle
                &&& final(self).pending() == old(self).pending()
                &&& final(self).executed() == old(self).executed()
                &&& (forall|i: int| 0 <= i < old(self).num_workers()
                    ==> final(self).worker_running(i) == old(self).worker_running(i))
            },
            old(self).pending().len() > 0
                ==> final(self).pending() == old(self).pending().drop_first(),
            old(self).pending().len() > 0 ==> (old(self).pending()[0] matches Message::NewJob(j)
                ==> {
                    &&& action == WorkerAction::RunJob(j)
                    &&& final(self).executed() == old(self).executed().push((j, wid))
                    &&& (forall|i: int| 0 <= i < old(self).num_workers()
                        ==> final(self).worker_running(i) == old(self).worker_running(i))
                }),
            old(self).pending().len() > 0 ==> (old(self).pending()[0] is Terminate ==> {
                &&& action == WorkerAction::Exit
                &&& final(self).executed() == old(self).executed()
                &&& !final(self).worker_running(wid as int)
                &&& (forall|i: int| 0 <= i < old(self).num_workers() && i != wid
                    ==> final(self).worker_running(i) == old(self).worker_running(i))
            }),
    {
        let r = self.queue.receive();
        let action = worker_decision(r);
        match action {
            WorkerAction::RunJob(j) => {
                proof {
                    self.executed@ = self.executed@.push((j, wid));
                    assert(record_ids(old(self).executed@.push((j, wid)))
                        =~= record_ids(old(self).executed@).push(j));
                    assert(record_ids(self.executed@) + job_ids(self.queue.messages())
                        =~= self.submitted@);
                }
            }
            WorkerAction::Exit => {
                proof {
                    assert(old(self).pending()[0] is Terminate);
                    lemma_exited_count_le(old(self).workers@);
                    assert(exited_count(old(self).workers@) < old(self).workers@.len());
                }
                let w = Worker { id: wid, running: false };
                let ghost prev_workers = self.workers@;
                self.workers[wid] = w;
                proof {
                    lemma_exited_count_update(prev_workers, wid as int, w);
                }
                self.queue.consumer_gone();
            }
            WorkerAction::Idle => {}
        }
        action
    }

    /// How many workers the pool has.
    pub fn worker_count(&self) -> (n: usize)
        ensures
            n == self.num_workers(),
    {
        self.workers.len()
    }

    /// Whether every worker's thread is still running.
    pub fn all_workers_running(&self) -> (r: bool)
        ensures
            r == (forall|i: int| 0 <= i < self.num_workers() ==> self.worker_running(i)),
    {
        let mut i: usize = 0;
        while i < self.workers.len()
            invariant
                i <= self.workers@.len(),
                forall|k: int| 0 <= k < i ==> self.worker_running(k),
            decreases self.workers@.len() - i,
        {
            if !self.workers[i].running {
                proof {
                    assert(!self.worker_running(i as int));
                }
                return false;
            }
            i = i + 1;
        }
        true
    }

    /// Whether every worker's thread has exited; teardown is complete (every
    /// join would return at once) exactly when this holds.
    pub fn all_workers_exited(&self) -> (r: bool)
        ensures
            r == self.all_exited(),
    {
        let mut i: usize = 0;
        while i < self.workers.len()
            invariant
                i <= self.workers@.len(),
                forall|k: int| 0 <= k < i ==> !(#[trigger] self.workers@[k]).running,
            decreases self.workers@.len() - i,
        {
            if self.workers[i].running {
                return false;
            }
            i = i + 1;
        }
        true
    }

    /// How many messages are still queued.
    pub fn pending_count(&self) -> (n: usize)
        ensures
            n == self.pending().len(),
    {
        self.queue.message_count()
    }

    /// Whether shutdown has been signalled.
    pub fn is_shut_down(&self) -> (r: bool)
        ensures
            r == self.shutdown_started(),
    {
        self.shutdown
    }
}

/// Conservation law: at every reachable state, the jobs executed so far,
/// followed by the job ids still queued, are exactly the submitted jobs in
/// submission order — no job is lost, duplicated or invented.
pub proof fn lemma_jobs_conserved(pool: ThreadPool)
    requires
        pool.inv(),
    ensures
        pool.executed_job_ids() + job_ids(pool.pending()) == pool.submitted(),
{
}

/// Ordering law: dequeue order equals enqueue order. The jobs executed so
/// far are exactly the earliest submitted ones, in submission order; only
/// completion order across workers is left open.
pub proof fn lemma_execution_order(pool: ThreadPool)
    requires
        pool.inv(),
    ensures
        pool.executed_job_ids().len() <= pool.submitted().len(),
        pool.executed_job_ids()
            == pool.submitted().take(pool.executed_job_ids().len() as int),
{
    assert(pool.executed_job_ids()
        =~= pool.submitted().take(pool.executed_job_ids().len() as int));
}

/// Exactly-once law: once no job remains queued, the executed jobs are
/// exactly the submitted ones, in order — each submitted job was run once,
/// and each run was by exactly one worker of the pool.
pub proof fn lemma_exactly_once(pool: ThreadPool)
    requires
        pool.inv(),
        job_ids(pool.pending()).len() == 0,
    ensures
        pool.executed_job_ids() == pool.submitted(),
        forall|k: int| 0 <= k < pool.executed().len()
            ==> (#[trigger] pool.executed()[k]).1 < pool.num_workers(),
{
    assert(pool.executed_job_ids() =~= pool.submitted());
}

/// Teardown law: once shutdown has been signalled and the queue fully
/// drained, every worker has exited, and every job submitted before shutdown
/// has been executed — none was lost to teardown.
pub proof fn lemma_teardown_complete(pool: ThreadPool)
    requires
        pool.inv(),
        pool.shutdown_started(),
        pool.pending().len() == 0,
    ensures
        pool.all_exited(),
        pool.executed_job_ids() == pool.submitted(),
{
    assert(pool.pending() =~= Seq::<Message>::empty());
    assert(terminate_count(Seq::<Message>::empty()) == 0);
    assert(job_ids(Seq::<Message>::empty()) == Seq::<u64>::empty());
    lemma_exited_count_le(pool.workers@);
    assert(pool.executed_job_ids() =~= pool.submitted());
}

} // verus!
