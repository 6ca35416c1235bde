use vstd::prelude::*;

verus! {

/// A message on the dispatch queue: either one job, named by the number the
/// pool gave it at submission, or the order to stop.
pub enum Message {
    NewJob(usize),
    Terminate,
}

/// A worker is either still consuming messages or stopped for good.
#[derive(Clone, Copy)]
pub enum WorkerState {
    Running,
    Stopped,
}

/// One worker of the pool: its number and whether it still runs.
#[derive(Clone, Copy)]
pub struct Worker {
    /// Unique number of the worker within its pool
    pub id: usize,
    /// Whether the worker still consumes messages
    pub state: WorkerState,
}

impl Worker {
    /// Create a worker, initially running.
    pub fn new(id: usize) -> (w: Worker)
        ensures
            w.id == id,
            w.state is Running,
    {
        Worker { id, state: WorkerState::Running }
    }
}

/// How many of the workers have stopped.
pub open spec fn stopped_count(ws: Seq<Worker>) -> int
    decreases ws.len(),
{
    if ws.len() == 0 {
        0
    } else {
        stopped_count(ws.drop_last()) + if ws.last().state is Stopped {
            1int
        } else {
            0int
        }
    }
}

proof fn lemma_stopped_count_bounds(ws: Seq<Worker>)
    ensures
        0 <= stopped_count(ws) <= ws.len(),
    decreases ws.len(),
{
    if ws.len() > 0 {
        lemma_stopped_count_bounds(ws.drop_last());
    }
}

proof fn lemma_stopped_count_update(ws: Seq<Worker>, w: int, x: Worker)
    requires
        0 <= w < ws.len(),
    ensures
        stopped_count(ws.update(w, x)) == stopped_count(ws) - (if ws[w].state is Stopped {
            1int
        } else {
            0int
        }) + (if x.state is Stopped {
            1int
        } else {
            0int
        }),
    decreases ws.len(),
{
    if w == ws.len() - 1 {
        assert(ws.update(w, x).drop_last() =~= ws.drop_last());
        assert(ws.update(w, x).last() == x);
    } else {
        assert(ws.update(w, x).drop_last() =~= ws.drop_last().update(w, x));
        assert(ws.update(w, x).last() == ws.last());
        lemma_stopped_count_update(ws.drop_last(), w, x);
    }
}

proof fn lemma_none_stopped(ws: Seq<Worker>)
    requires
        forall|i: int| 0 <= i < ws.len() ==> ws[i].state is Running,
    ensures
        stopped_count(ws) == 0,
    decreases ws.len(),
{
    if ws.len() > 0 {
        assert(forall|i: int| 0 <= i < ws.len() - 1 ==> ws.drop_last()[i] == ws[i]);
        lemma_none_stopped(ws.drop_last());
    }
}

proof fn lemma_all_stopped_count(ws: Seq<Worker>)
    requires
        forall|i: int| 0 <= i < ws.len() ==> ws[i].state is Stopped,
    ensures
        stopped_count(ws) == ws.len(),
    decreases ws.len(),
{
    if ws.len() > 0 {
        assert(forall|i: int| 0 <= i < ws.len() - 1 ==> ws.drop_last()[i] == ws[i]);
        lemma_all_stopped_count(ws.drop_last());
    }
}

proof fn lemma_stopped_count_full(ws: Seq<Worker>)
    requires
        stopped_count(ws) == ws.len(),
    ensures
        forall|i: int| 0 <= i < ws.len() ==> ws[i].state is Stopped,
    decreases ws.len(),
{
    if ws.len() > 0 {
        lemma_stopped_count_bounds(ws.drop_last());
        lemma_stopped_count_full(ws.drop_last());
        assert forall|i: int| 0 <= i < ws.len() implies ws[i].state is Stopped by {
            if i < ws.len() - 1 {
                assert(ws.drop_last()[i] == ws[i]);
            } else {
                assert(ws.last() == ws[i]);
            }
        }
    }
}

/// A ThreadPool is the bookkeeping of the worker pool: its workers, the
/// dispatch queue, and the jobs run so far. One delivery step hands the
/// queue's front message to one chosen running worker, the way the channel
/// of the running pool hands each message to exactly one consumer.
pub struct ThreadPool {
    /// The workers, one entry per execution thread
    pub workers: Vec<Worker>,
    /// The dispatch queue, front first: messages no worker has taken yet
    pub queue: Vec<Message>,
    /// How many jobs were submitted; they are numbered from zero upward
    pub submitted: usize,
    /// The jobs run to completion, in the order workers took them
    pub executed: Vec<usize>,
    /// Whether shutdown has already enqueued its terminate orders
    pub shutdown_sent: bool,
    /// Whether the workers report what they do; observability only
    pub verbose: bool,
}

impl ThreadPool {
    /// The pending queue keeps every not-yet-executed job, in submission
    /// order, ahead of every terminate order.
    pub open spec fn queue_shape(self) -> bool {
        let next = self.executed@.len() as int;
        let jobs = self.submitted - next;
        &&& self.queue@.len() >= jobs
        &&& forall|i: int|
            0 <= i < jobs ==> self.queue@[i] == Message::NewJob((next + i) as usize)
        &&& forall|i: int| jobs <= i < self.queue@.len() ==> self.queue@[i] is Terminate
    }

    /// How many terminate orders are still queued.
    pub open spec fn queued_terminates(self) -> int {
        self.queue@.len() - (self.submitted - self.executed@.len())
    }

    /// The pool's invariant: workers are numbered by position; the jobs
    /// executed so far are exactly the first ones submitted, each exactly
    /// once and in order; the queue holds the remaining jobs ahead of the
    /// terminate orders; a worker stops only through a terminate order, of
    /// which one per worker is outstanding or consumed once shutdown began;
    /// and no worker stops while a submitted job is still unexecuted.
    pub open spec fn wf(self) -> bool {
        &&& self.workers@.len() >= 1
        &&& forall|i: int| 0 <= i < self.workers@.len() ==> self.workers@[i].id == i
        &&& self.executed@.len() <= self.submitted
        &&& forall|i: int| 0 <= i < self.executed@.len() ==> self.executed@[i] == i
        &&& self.queue_shape()
        &&& (!self.shutdown_sent ==> self.queued_terminates() == 0 && stopped_count(self.workers@)
            == 0)
        &&& (self.shutdown_sent ==> self.queued_terminates() + stopped_count(self.workers@)
            == self.workers@.len())
        &&& (self.executed@.len() < self.submitted ==> stopped_count(self.workers@) == 0)
    }

    /// Create a new ThreadPool. `size` is the number of workers, `verbose`
    /// whether they report what they do. A pool of size zero is a
    /// configuration error, ruled out here.
    pub fn new(size: usize, verbose: bool) -> (pool: ThreadPool)
        requires
            size >= 1,
        ensures
            pool.wf(),
            pool.workers@.len() == size,
            forall|i: int| 0 <= i < size ==> pool.workers@[i].state is Running,
            pool.submitted == 0,
            pool.executed@.len() == 0,
            pool.queue@.len() == 0,
            !pool.shutdown_sent,
            pool.verbose == verbose,
    {
        let mut workers: Vec<Worker> = Vec::new();
        let mut id: usize = 0;
        while id < size
            invariant
                id <= size,
                workers@.len() == id,
                forall|i: int|
                    0 <= i < id ==> workers@[i].id == i && workers@[i].state is Running,
            decreases size - id,
        {
            workers.push(Worker::new(id));
            id += 1;
        }
        proof {
            lemma_none_stopped(workers@);
        }
        ThreadPool {
            workers,
            queue: Vec::new(),
            submitted: 0,
            executed: Vec::new(),
            shutdown_sent: false,
            verbose,
        }
    }

    /// Submit one job: it gets the next number and is queued behind every
    /// earlier job; no worker has taken it yet. Submission comes only
    /// before shutdown.
    pub fn execute(&mut self) -> (job: usize)
        requires
            old(self).wf(),
            !old(self).shutdown_sent,
            old(self).submitted < usize::MAX,
        ensures
            final(self).wf(),
            job == old(self).submitted,
            final(self).submitted == old(self).submitted + 1,
            final(self).queue@ == old(self).queue@.push(Message::NewJob(job)),
            final(self).workers@ == old(self).workers@,
            final(self).executed@ == old(self).executed@,
            final(self).shutdown_sent == old(self).shutdown_sent,
            final(self).verbose == old(self).verbose,
    {
        let job = self.submitted;
        self.queue.push(Message::NewJob(job));
        self.submitted = self.submitted + 1;
        job
    }

    /// Enqueue one terminate order per worker: the first half of shutdown.
    pub fn begin_shutdown(&mut self)
        requires
            old(self).wf(),
            !old(self).shutdown_sent,
        ensures
            final(self).wf(),
            final(self).shutdown_sent,
            final(self).submitted == old(self).submitted,
            final(self).executed@ == old(self).executed@,
            final(self).workers@ == old(self).workers@,
            final(self).queue@.len() == old(self).queue@.len() + old(self).workers@.len(),
            final(self).verbose == old(self).verbose,
    {
        let n = self.workers.len();
        let mut k: usize = 0;
        while k < n
            invariant
                k <= n,
                self.queue@.len() == old(self).queue@.len() + k,
                forall|i: int|
                    0 <= i < old(self).queue@.len() ==> self.queue@[i] == old(self).queue@[i],
                forall|i: int|
                    old(self).queue@.len() <= i < self.queue@.len() ==> self.queue@[i]
                        is Terminate,
                self.workers@ == old(self).workers@,
                self.submitted == old(self).submitted,
                self.executed@ == old(self).executed@,
                self.shutdown_sent == old(self).shutdown_sent,
                self.verbose == old(self).verbose,
                n == self.workers@.len(),
            decreases n - k,
        {
            self.queue.push(Message::Terminate);
            k += 1;
        }
        self.shutdown_sent = true;
    }

    /// Deliver the queue's front message to the running worker `w`: a job
    /// message means the worker runs that job to completion and it is
    /// recorded; a terminate order stops the worker, which never dequeues
    /// again.
    pub fn deliver_next(&mut self, w: usize) -> (ran: Option<usize>)
        requires
            old(self).wf(),
            w < old(self).workers@.len(),
            old(self).workers@[w as int].state is Running,
            old(self).queue@.len() > 0,
        ensures
            final(self).wf(),
            final(self).queue@ == old(self).queue@.drop_first(),
            final(self).submitted == old(self).submitted,
            final(self).shutdown_sent == old(self).shutdown_sent,
            final(self).verbose == old(self).verbose,
            final(self).workers@.len() == old(self).workers@.len(),
            match ran {
                Some(j) => {
                    &&& old(self).queue@[0] == Message::NewJob(j)
                    &&& j == old(self).executed@.len()
                    &&& final(self).executed@ == old(self).executed@.push(j)
                    &&& final(self).workers@ == old(self).workers@
                },
                None => {
                    &&& old(self).queue@[0] is Terminate
                    &&& final(self).executed@ == old(self).executed@
                    &&& final(self).workers@ == old(self).workers@.update(
                        w as int,
                        Worker { id: w, state: WorkerState::Stopped },
                    )
                    &&& stopped_count(final(self).workers@) == stopped_count(old(self).workers@)
                        + 1
                },
            },
    {
        let msg = self.queue.remove(0);
        proof {
            assert(old(self).queue@.remove(0) =~= old(self).queue@.drop_first());
        }
        match msg {
            Message::NewJob(j) => {
                proof {
                    let next = old(self).executed@.len() as int;
                    let jobs = old(self).submitted - next;
                    if jobs <= 0 {
                        assert(old(self).queue@[0] is Terminate);
                    }
                    assert(old(self).queue@[0] == Message::NewJob(next as usize));
                }
                self.executed.push(j);
                proof {
                    let next = final(self).executed@.len() as int;
                    let jobs = final(self).submitted - next;
                    assert forall|i: int| 0 <= i < jobs implies final(self).queue@[i]
                        == Message::NewJob((next + i) as usize) by {
                        assert(final(self).queue@[i] == old(self).queue@[i + 1]);
                    }
                    assert forall|i: int| jobs <= i < final(self).queue@.len() implies final(self).queue@[i] is Terminate by {
                        assert(final(self).queue@[i] == old(self).queue@[i + 1]);
                    }
                }
                Some(j)
            },
            Message::Terminate => {
                proof {
                    let next = old(self).executed@.len() as int;
                    let jobs = old(self).submitted - next;
                    if jobs > 0 {
                        assert(old(self).queue@[0] == Message::NewJob(next as usize));
                    }
                    assert(jobs == 0);
                }
                self.workers[w] = Worker { id: w, state: WorkerState::Stopped };
                proof {
                    lemma_stopped_count_update(
                        old(self).workers@,
                        w as int,
                        Worker { id: w, state: WorkerState::Stopped },
                    );
                    assert forall|i: int| 0 <= i < final(self).queue@.len() implies final(self).queue@[i] is Terminate by {
                        assert(final(self).queue@[i] == old(self).queue@[i + 1]);
                    }
                }
                None
            },
        }
    }

    /// Find a worker that still runs; one exists while fewer workers have
    /// stopped than the pool holds.
    pub fn find_running(&self) -> (w: usize)
        requires
            stopped_count(self.workers@) < self.workers@.len(),
        ensures
            w < self.workers@.len(),
            self.workers@[w as int].state is Running,
    {
        let n = self.workers.len();
        let mut i: usize = 0;
        while i < n
            invariant
                i <= n,
                n == self.workers@.len(),
                stopped_count(self.workers@) < n,
                forall|j: int| 0 <= j < i ==> self.workers@[j].state is Stopped,
            decreases n - i,
        {
            match self.workers[i].state {
                WorkerState::Running => {
                    return i;
                },
                WorkerState::Stopped => {
                    i += 1;
                },
            }
        }
        proof {
            lemma_all_stopped_count(self.workers@);
            assert(false);
        }
        0
    }

    /// Shut the pool down: enqueue one terminate order per worker, then
    /// deliver messages to running workers until the queue drains. Every
    /// job submitted since the pool was created has then been executed,
    /// exactly once and in submission order, and every worker has stopped.
    pub fn shutdown(&mut self)
        requires
            old(self).wf(),
            !old(self).shutdown_sent,
        ensures
            final(self).wf(),
            final(self).shutdown_sent,
            final(self).queue@.len() == 0,
            final(self).submitted == old(self).submitted,
            final(self).workers@.len() == old(self).workers@.len(),
            final(self).executed@.len() == old(self).submitted,
            forall|i: int| 0 <= i < final(self).executed@.len() ==> final(self).executed@[i] == i,
            forall|i: int|
                0 <= i < final(self).workers@.len() ==> final(self).workers@[i].state is Stopped,
    {
        self.begin_shutdown();
        while self.queue.len() > 0
            invariant
                self.wf(),
                self.shutdown_sent,
                self.submitted == old(self).submitted,
                self.workers@.len() == old(self).workers@.len(),
            decreases self.queue@.len(),
        {
            proof {
                lemma_stopped_count_bounds(self.workers@);
            }
            let w = self.find_running();
            self.deliver_next(w);
        }
        proof {
            lemma_stopped_count_full(self.workers@);
        }
    }
}

} // verus!
