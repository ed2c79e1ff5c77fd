use vstd::prelude::*;
use crate::time::Instant;

verus! {

/// Identity of a parked task: the handle through which a suspended task is
/// resumed. Two handles are the same task exactly when they are equal.
#[derive(Clone, Copy, Debug, PartialEq, Eq, Structural)]
pub struct TaskId {
    pub id: u64,
}

/// An opaque identifier of one registration held by the worker.
#[derive(Clone, Copy, Debug, PartialEq, Eq, Structural)]
pub struct Token {
    pub id: u64,
}

/// A message from a timeout to the background worker that owns the
/// timing wheel.
#[derive(Clone, Copy, Debug, PartialEq, Eq, Structural)]
pub enum Request {
    /// Wake `task` once `when` is reached; the registration is `token`.
    Register { token: Token, when: Instant, task: TaskId },
    /// The registration `token` now wakes `task` instead.
    Move { token: Token, when: Instant, task: TaskId },
    /// Forget the registration `token`.
    Cancel { token: Token, when: Instant },
}

/// The sending side of the worker's request channel.
///
/// Registrations and moves are refused once `capacity` requests wait in the
/// channel; the caller then retries. Cancellations are never refused.
pub struct Worker {
    capacity: usize,
    queue: Vec<Request>,
    next_token: u64,
}

impl Worker {
    /// How many registrations and moves may wait in the channel.
    pub closed spec fn capacity_spec(&self) -> nat {
        self.capacity as nat
    }

    /// The requests waiting in the channel, oldest first.
    pub closed spec fn pending(&self) -> Seq<Request> {
        self.queue@
    }

    /// The token that the next registration receives.
    pub closed spec fn next_token_spec(&self) -> u64 {
        self.next_token
    }

    /// A registration or a move would be accepted now.
    pub open spec fn has_room(&self) -> bool {
        self.pending().len() < self.capacity_spec()
    }

    /// A registration would be accepted now: there is room, and a token is
    /// left to hand out.
    pub open spec fn can_register(&self) -> bool {
        self.has_room() && self.next_token_spec() < u64::MAX
    }

    /// The worker after `req` has been queued.
    pub open spec fn sent(self, other: Worker, req: Request) -> bool {
        &&& other.pending() == self.pending().push(req)
        &&& other.capacity_spec() == self.capacity_spec()
    }

    /// A channel that holds at most `capacity` registrations and moves.
    pub fn new(capacity: usize) -> (r: Worker)
        ensures
            r.capacity_spec() == capacity,
            r.pending() == Seq::<Request>::empty(),
            r.next_token_spec() == 0,
    {
        Worker { capacity, queue: Vec::new(), next_token: 0 }
    }

    /// The bound given at creation.
    pub fn capacity(&self) -> (r: usize)
        ensures
            r == self.capacity_spec(),
    {
        self.capacity
    }

    /// The number of requests waiting in the channel.
    pub fn len(&self) -> (r: usize)
        ensures
            r == self.pending().len(),
    {
        self.queue.len()
    }

    /// Asks for `task` to be woken once `when` is reached. On success the
    /// new registration's token is returned; when the channel is full the
    /// task handle comes back so that the caller can resume it.
    pub fn set_timeout(&mut self, when: Instant, task: TaskId) -> (r: Result<Token, TaskId>)
        ensures
            old(self).can_register() ==> {
                &&& r == Ok::<Token, TaskId>(Token { id: old(self).next_token_spec() })
                &&& old(self).sent(*final(self), Request::Register {
                    token: Token { id: old(self).next_token_spec() },
                    when,
                    task,
                })
                &&& final(self).next_token_spec() == old(self).next_token_spec() + 1
            },
            !old(self).can_register() ==> r == Err::<Token, TaskId>(task) && *final(self) == *old(self),
    {
        if self.queue.len() < self.capacity && self.next_token < u64::MAX {
            let token = Token { id: self.next_token };
            self.queue.push(Request::Register { token, when, task });
            self.next_token = self.next_token + 1;
            Ok(token)
        } else {
            Err(task)
        }
    }

    /// Asks for the registration `token` to wake `task` instead. When the
    /// channel is full the task handle comes back.
    pub fn move_timeout(&mut self, token: Token, when: Instant, task: TaskId) -> (r: Result<(), TaskId>)
        ensures
            old(self).has_room() ==> {
                &&& r == Ok::<(), TaskId>(())
                &&& old(self).sent(*final(self), Request::Move { token, when, task })
                &&& final(self).next_token_spec() == old(self).next_token_spec()
            },
            !old(self).has_room() ==> r == Err::<(), TaskId>(task) && *final(self) == *old(self),
    {
        if self.queue.len() < self.capacity {
            self.queue.push(Request::Move { token, when, task });
            Ok(())
        } else {
            Err(task)
        }
    }

    /// Asks for the registration `token` to be forgotten. Nothing waits for
    /// the worker to act on it.
    pub fn cancel_timeout(&mut self, token: Token, when: Instant)
        ensures
            old(self).sent(*final(self), Request::Cancel { token, when }),
            final(self).next_token_spec() == old(self).next_token_spec(),
    {
        self.queue.push(Request::Cancel { token, when });
    }

    /// Hands the waiting requests to the worker, oldest first, and empties
    /// the channel.
    pub fn take_requests(&mut self) -> (r: Vec<Request>)
        ensures
            r@ == old(self).pending(),
            final(self).pending() == Seq::<Request>::empty(),
            final(self).capacity_spec() == old(self).capacity_spec(),
            final(self).next_token_spec() == old(self).next_token_spec(),
    {
        let mut taken: Vec<Request> = Vec::new();
        std::mem::swap(&mut taken, &mut self.queue);
        taken
    }
}

} // verus!
