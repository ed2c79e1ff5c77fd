use vstd::prelude::*;
use crate::time::Instant;
use crate::worker::{Request, TaskId, Token, Worker};

verus! {

/// Channel capacity of a timer built with the baseline configuration.
pub const DEFAULT_CHANNEL_CAPACITY: usize = 128;

/// A facility for scheduling timeouts: it holds the channel to the worker
/// that every timeout it hands out talks to.
pub struct Timer {
    pub worker: Worker,
}

/// Outcome of polling a timeout.
#[derive(Clone, Copy, Debug, PartialEq, Eq, Structural)]
pub enum Poll {
    /// The target instant has passed.
    Ready,
    /// Not yet; the worker will resume the registered task.
    Pending,
    /// Not yet, and the worker was overloaded: the given task must be
    /// resumed at once so that it polls again soon.
    Retry(TaskId),
}

/// A single-shot operation that completes once its target instant has
/// passed. `handle` is its current registration with the worker: the task
/// to resume and the token that names the registration. It is neither
/// `Clone` nor `Copy`, so a registration is never held twice.
#[derive(Debug)]
pub struct Timeout {
    pub when: Instant,
    pub handle: Option<(TaskId, Token)>,
}

/// A timer whose channel holds at most `channel_capacity` registrations
/// and moves.
pub fn build(channel_capacity: usize) -> (r: Timer)
    ensures
        r.worker.capacity_spec() == channel_capacity,
        r.worker.pending() == Seq::<Request>::empty(),
        r.worker.next_token_spec() == 0,
{
    Timer { worker: Worker::new(channel_capacity) }
}

impl Default for Timer {
    fn default() -> (r: Timer)
        ensures
            r.worker.capacity_spec() == DEFAULT_CHANNEL_CAPACITY,
            r.worker.pending() == Seq::<Request>::empty(),
            r.worker.next_token_spec() == 0,
    {
        build(DEFAULT_CHANNEL_CAPACITY)
    }
}

impl Timer {
    /// A fresh, unregistered timeout that targets `when`.
    pub fn set_timeout(&self, when: Instant) -> (r: Timeout)
        ensures
            r.when == when,
            r.handle is None,
    {
        Timeout { when, handle: None }
    }
}

impl Timeout {
    /// One poll of `self` at `now` by task `cur`, against worker `w`,
    /// gives `r`, leaves the timeout as `t2` and the worker as `w2`.
    pub open spec fn poll_step(
        self,
        now: Instant,
        cur: TaskId,
        w: Worker,
        t2: Timeout,
        w2: Worker,
        r: Poll,
    ) -> bool {
        if now.nanos >= self.when.nanos {
            r == Poll::Ready && t2 == self && w2 == w
        } else {
            match self.handle {
                None => if w.can_register() {
                    let token = Token { id: w.next_token_spec() };
                    &&& r == Poll::Pending
                    &&& t2 == Timeout { when: self.when, handle: Some((cur, token)) }
                    &&& w.sent(w2, Request::Register { token, when: self.when, task: cur })
                    &&& w2.next_token_spec() == w.next_token_spec() + 1
                } else {
                    r == Poll::Retry(cur) && t2 == self && w2 == w
                },
                Some((task, token)) => if task == cur {
                    r == Poll::Pending && t2 == self && w2 == w
                } else if w.has_room() {
                    &&& r == Poll::Pending
                    &&& t2 == Timeout { when: self.when, handle: Some((cur, token)) }
                    &&& w.sent(w2, Request::Move { token, when: self.when, task: cur })
                    &&& w2.next_token_spec() == w.next_token_spec()
                } else {
                    r == Poll::Retry(cur) && t2 == self && w2 == w
                },
            }
        }
    }

    /// Disposing of `self` turns worker `w` into `w2`: a live registration
    /// is cancelled with exactly one request, and nothing else is sent.
    pub open spec fn cancel_step(self, w: Worker, w2: Worker) -> bool {
        match self.handle {
            Some((_, token)) => {
                &&& w.sent(w2, Request::Cancel { token, when: self.when })
                &&& w2.next_token_spec() == w.next_token_spec()
            },
            None => w2 == w,
        }
    }

    /// Whether the target instant has been reached at `now`.
    pub fn is_expired(&self, now: Instant) -> (r: bool)
        ensures
            r == (now.nanos >= self.when.nanos),
    {
        now.reached(&self.when)
    }

    /// Polls the timeout at `now` from task `cur`.
    ///
    /// An expired timeout is ready without touching the worker. Otherwise an
    /// unregistered timeout registers `cur`; one registered for `cur` does
    /// nothing; one registered for another task moves its registration to
    /// `cur`. When the worker is overloaded nothing is stored and `cur` is
    /// handed back to be resumed at once.
    pub fn poll(&mut self, now: Instant, cur: TaskId, timer: &mut Timer) -> (r: Poll)
        ensures
            old(self).poll_step(now, cur, old(timer).worker, *final(self), final(timer).worker, r),
    {
        if self.is_expired(now) {
            return Poll::Ready;
        }
        match self.handle {
            None => match timer.worker.set_timeout(self.when, cur) {
                Ok(token) => {
                    self.handle = Some((cur, token));
                    Poll::Pending
                },
                Err(task) => Poll::Retry(task),
            },
            Some((task, token)) => {
                if task == cur {
                    Poll::Pending
                } else {
                    match timer.worker.move_timeout(token, self.when, cur) {
                        Ok(()) => {
                            self.handle = Some((cur, token));
                            Poll::Pending
                        },
                        Err(task) => Poll::Retry(task),
                    }
                }
            },
        }
    }

    /// Disposes of the timeout. A live registration is cancelled with the
    /// worker, once; nothing waits for the worker to act on it.
    pub fn cancel(self, timer: &mut Timer)
        ensures
            self.cancel_step(old(timer).worker, final(timer).worker),
    {
        if let Some((_, token)) = self.handle {
            timer.worker.cancel_timeout(token, self.when);
        }
    }
}

/// Whether `t` holds a registration for task `cur`.
pub open spec fn registered_for(t: Timeout, cur: TaskId) -> bool {
    match t.handle {
        Some((task, _)) => task == cur,
        None => false,
    }
}

/// A run of polls of one timeout: polling `ts[i]` at `nows[i]` by task
/// `curs[i]` against worker `ws[i]` gives `rs[i]` and leaves `ts[i + 1]`
/// and `ws[i + 1]`.
pub open spec fn is_poll_run(
    ts: Seq<Timeout>,
    ws: Seq<Worker>,
    rs: Seq<Poll>,
    nows: Seq<Instant>,
    curs: Seq<TaskId>,
) -> bool {
    &&& ts.len() == nows.len() + 1
    &&& ws.len() == nows.len() + 1
    &&& rs.len() == nows.len()
    &&& curs.len() == nows.len()
    &&& forall|i: int|
        0 <= i < nows.len() ==> ts[i].poll_step(nows[i], curs[i], ws[i], ts[i + 1], ws[i + 1], #[trigger] rs[i])
}

/// Every poll of the run is made by task `cur`.
pub open spec fn all_by(curs: Seq<TaskId>, cur: TaskId) -> bool {
    forall|i: int| 0 <= i < curs.len() ==> #[trigger] curs[i] == cur
}

proof fn lemma_poll_run_from(
    ts: Seq<Timeout>,
    ws: Seq<Worker>,
    rs: Seq<Poll>,
    nows: Seq<Instant>,
    curs: Seq<TaskId>,
    cur: TaskId,
    i: int,
)
    requires
        is_poll_run(ts, ws, rs, nows, curs),
        all_by(curs, cur),
        0 <= i <= nows.len(),
    ensures
        registered_for(ts[i], cur) ==> forall|j: int|
            i <= j <= nows.len() ==> #[trigger] ts[j] == ts[i] && ws[j].pending() == ws[i].pending(),
        ws[nows.len() as int].pending() == ws[i].pending()
            || exists|req: Request| ws[nows.len() as int].pending() == ws[i].pending().push(req),
    decreases nows.len() - i,
{
    if i < nows.len() {
        assert(curs[i] == cur);
        assert(ts[i].poll_step(nows[i], curs[i], ws[i], ts[i + 1], ws[i + 1], rs[i]));
        lemma_poll_run_from(ts, ws, rs, nows, curs, cur, i + 1);
        if ws[i + 1].pending() != ws[i].pending() {
            assert(registered_for(ts[i + 1], cur));
            assert(ts[nows.len() as int] == ts[i + 1]);
            let req = ws[i + 1].pending().last();
            assert(ws[i + 1].pending() == ws[i].pending().push(req));
        }
        if registered_for(ts[i], cur) {
            assert forall|j: int| i <= j <= nows.len() implies #[trigger] ts[j] == ts[i]
                && ws[j].pending() == ws[i].pending() by {
                if j > i {
                    assert(ts[j] == ts[i + 1]);
                }
            }
        }
    }
}

/// Polling one timeout again and again from the same task sends the worker
/// at most one request, whatever the instants of the polls and however
/// often the worker is overloaded: once a registration for that task is
/// held, further polls leave the worker alone.
pub proof fn lemma_same_task_polls(
    ts: Seq<Timeout>,
    ws: Seq<Worker>,
    rs: Seq<Poll>,
    nows: Seq<Instant>,
    curs: Seq<TaskId>,
    cur: TaskId,
)
    requires
        is_poll_run(ts, ws, rs, nows, curs),
        all_by(curs, cur),
    ensures
        ws[nows.len() as int].pending() == ws[0].pending()
            || exists|req: Request| ws[nows.len() as int].pending() == ws[0].pending().push(req),
{
    lemma_poll_run_from(ts, ws, rs, nows, curs, cur, 0);
}

/// A fresh timeout polled one or more times by the same task before its
/// deadline, on a worker that accepts the first registration, sends exactly
/// one request, the registration of that task; every poll is pending, and
/// the timeout ends up holding that task and the token it was given.
pub proof fn lemma_fresh_same_task_polls(
    ts: Seq<Timeout>,
    ws: Seq<Worker>,
    rs: Seq<Poll>,
    nows: Seq<Instant>,
    curs: Seq<TaskId>,
    cur: TaskId,
)
    requires
        is_poll_run(ts, ws, rs, nows, curs),
        all_by(curs, cur),
        nows.len() >= 1,
        ts[0].handle is None,
        ws[0].can_register(),
        forall|i: int| 0 <= i < nows.len() ==> #[trigger] nows[i].nanos < ts[0].when.nanos,
    ensures
        ({
            let token = Token { id: ws[0].next_token_spec() };
            &&& ws[nows.len() as int].pending() == ws[0].pending().push(
                Request::Register { token, when: ts[0].when, task: cur },
            )
            &&& ts[nows.len() as int].handle == Some((cur, token))
            &&& ts[nows.len() as int].when == ts[0].when
        }),
        forall|i: int| 0 <= i < nows.len() ==> #[trigger] rs[i] == Poll::Pending,
{
    assert(curs[0] == cur);
    assert(nows[0].nanos < ts[0].when.nanos);
    assert(ts[0].poll_step(nows[0], curs[0], ws[0], ts[1], ws[1], rs[0]));
    assert(registered_for(ts[1], cur));
    lemma_poll_run_from(ts, ws, rs, nows, curs, cur, 1);
    assert(ts[nows.len() as int] == ts[1]);
    assert forall|i: int| 0 <= i < nows.len() implies #[trigger] rs[i] == Poll::Pending by {
        if i > 0 {
            assert(curs[i] == cur);
            assert(nows[i].nanos < ts[0].when.nanos);
            assert(ts[i] == ts[1]);
            assert(ts[i].poll_step(nows[i], curs[i], ws[i], ts[i + 1], ws[i + 1], rs[i]));
        }
    }
}

/// Whether `req` registers `token` for the deadline `when`.
pub open spec fn registers(req: Request, token: Token, when: Instant) -> bool {
    match req {
        Request::Register { token: t, when: w, .. } => t == token && w == when,
        _ => false,
    }
}

proof fn lemma_run_requests(
    ts: Seq<Timeout>,
    ws: Seq<Worker>,
    rs: Seq<Poll>,
    nows: Seq<Instant>,
    curs: Seq<TaskId>,
    i: int,
)
    requires
        is_poll_run(ts, ws, rs, nows, curs),
        ts[0].handle is None,
        0 <= i <= nows.len(),
    ensures
        ({
            let b = ws[0].pending();
            let p = ws[i].pending();
            &&& b.len() <= p.len()
            &&& p.subrange(0, b.len() as int) == b
            &&& forall|k: int| b.len() <= k < p.len() ==> !(#[trigger] p[k] is Cancel)
            &&& ts[i].when == ts[0].when
            &&& match ts[i].handle {
                None => forall|k: int| b.len() <= k < p.len() ==> !(#[trigger] p[k] is Register),
                Some((_, token)) => exists|k: int|
                    b.len() <= k < p.len() && registers(#[trigger] p[k], token, ts[0].when),
            }
        }),
    decreases i,
{
    if i > 0 {
        let j = i - 1;
        lemma_run_requests(ts, ws, rs, nows, curs, j);
        assert(ts[j].poll_step(nows[j], curs[j], ws[j], ts[j + 1], ws[j + 1], rs[j]));
        let b = ws[0].pending();
        let p0 = ws[j].pending();
        let p = ws[i].pending();
        if p != p0 {
            let req = p.last();
            assert(p == p0.push(req));
            assert(p.subrange(0, b.len() as int) =~= p0.subrange(0, b.len() as int));
            assert forall|k: int| b.len() <= k < p0.len() implies #[trigger] p[k] == p0[k] by {}
            match ts[j].handle {
                None => {
                    let token = Token { id: ws[j].next_token_spec() };
                    assert(registers(p[p0.len() as int], token, ts[0].when));
                },
                Some((_, token)) => {
                    let k = choose|k: int| b.len() <= k < p0.len() && registers(#[trigger] p0[k], token, ts[0].when);
                    assert(p[k] == p0[k]);
                },
            }
        }
    }
}

/// Disposing of a timeout after any polls, by any tasks, cancels it at
/// most once: the polls send no cancellation, and the disposal sends one,
/// as the last request, exactly when a registration was sent; it carries
/// that registration's token and the timeout's deadline.
pub proof fn lemma_polls_then_cancel(
    ts: Seq<Timeout>,
    ws: Seq<Worker>,
    rs: Seq<Poll>,
    nows: Seq<Instant>,
    curs: Seq<TaskId>,
    wc: Worker,
)
    requires
        is_poll_run(ts, ws, rs, nows, curs),
        ts[0].handle is None,
        ts[nows.len() as int].cancel_step(ws[nows.len() as int], wc),
    ensures
        ({
            let b = ws[0].pending();
            let p = ws[nows.len() as int].pending();
            &&& b.len() <= p.len()
            &&& p.subrange(0, b.len() as int) == b
            &&& forall|k: int| b.len() <= k < p.len() ==> !(#[trigger] p[k] is Cancel)
            &&& match ts[nows.len() as int].handle {
                None => {
                    &&& wc == ws[nows.len() as int]
                    &&& forall|k: int| b.len() <= k < p.len() ==> !(#[trigger] p[k] is Register)
                },
                Some((_, token)) => {
                    &&& wc.pending() == p.push(Request::Cancel { token, when: ts[0].when })
                    &&& exists|k: int| b.len() <= k < p.len() && registers(#[trigger] p[k], token, ts[0].when)
                },
            }
        }),
{
    lemma_run_requests(ts, ws, rs, nows, curs, nows.len() as int);
}

} // verus!
