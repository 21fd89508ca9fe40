//! The job queue: an unbounded FIFO channel of control messages, shared by
//! every worker of a pool. Each message is delivered to exactly one receiver,
//! in the order the messages were sent.

use vstd::prelude::*;

verus! {

/// A control message for a worker.
///
/// A job is an opaque, single-invocation callable supplied by the caller; the
/// verified core sees it through a caller-chosen numeric id and never looks
/// inside it. `Terminate` tells whichever worker dequeues it to exit.
#[derive(Clone, Copy, PartialEq, Eq, Structural, Debug)]
pub enum Message {
    NewJob(u64),
    Terminate,
}

/// The job ids carried by the messages of `s`, in order.
pub open spec fn job_ids(s: Seq<Message>) -> Seq<u64>
    decreases s.len(),
{
    if s.len() == 0 {
        Seq::empty()
    } else {
        match s[0] {
            Message::NewJob(j) => seq![j] + job_ids(s.drop_first()),
            Message::Terminate => job_ids(s.drop_first()),
        }
    }
}

/// How many `Terminate` messages `s` holds.
pub open spec fn terminate_count(s: Seq<Message>) -> nat
    decreases s.len(),
{
    if s.len() == 0 {
        0
    } else {
        (if s[0] is Terminate { 1nat } else { 0nat }) + terminate_count(s.drop_first())
    }
}

/// Appending a message adds its job id (if any) at the end of `job_ids`.
pub proof fn lemma_job_ids_push(s: Seq<Message>, m: Message)
    ensures
        m matches Message::NewJob(j) ==> job_ids(s.push(m)) == job_ids(s).push(j),
        m is Terminate ==> job_ids(s.push(m)) == job_ids(s),
    decreases s.len(),
{
    let t = s.push(m);
    assert(job_ids(Seq::<Message>::empty()) == Seq::<u64>::empty());
    if s.len() == 0 {
        assert(t.drop_first() =~= Seq::<Message>::empty());
        assert(s =~= Seq::<Message>::empty());
        match m {
            Message::NewJob(j) => {
                assert(job_ids(t) == seq![j] + job_ids(t.drop_first()));
                assert(job_ids(t) =~= job_ids(s).push(j));
            }
            Message::Terminate => {
                assert(job_ids(t) =~= job_ids(s));
            }
        }
    } else {
        assert(t.drop_first() =~= s.drop_first().push(m));
        lemma_job_ids_push(s.drop_first(), m);
        match m {
            Message::NewJob(j) => {
                assert(job_ids(t) =~= job_ids(s).push(j));
            }
            Message::Terminate => {
                assert(job_ids(t) =~= job_ids(s));
            }
        }
    }
}

/// Appending a message raises `terminate_count` by one exactly for `Terminate`.
pub proof fn lemma_terminate_count_push(s: Seq<Message>, m: Message)
    ensures
        terminate_count(s.push(m)) == terminate_count(s) + (if m is Terminate { 1nat } else { 0nat }),
    decreases s.len(),
{
    let t = s.push(m);
    assert(terminate_count(Seq::<Message>::empty()) == 0);
    if s.len() == 0 {
        assert(t.drop_first() =~= Seq::<Message>::empty());
        assert(s =~= Seq::<Message>::empty());
    } else {
        assert(t.drop_first() =~= s.drop_first().push(m));
        lemma_terminate_count_push(s.drop_first(), m);
    }
}

/// Returned by `JobQueue::send` when no consumer can ever receive again.
#[derive(Clone, Copy, PartialEq, Eq, Structural, Debug)]
pub struct SendError;

/// What one call to `JobQueue::receive` yields.
///
/// `Empty` models the blocking wait of a real channel: no message is ready
/// yet, and the caller should try again once one may exist. `Disconnected`
/// reports that the producer side is gone and nothing is left to deliver.
#[derive(Clone, Copy, PartialEq, Eq, Structural, Debug)]
pub enum Received {
    Message(Message),
    Empty,
    Disconnected,
}

/// An unbounded multi-producer, multi-consumer FIFO queue of messages.
///
/// The queue tracks how many consumer handles are still live and whether the
/// producer side is still open, so its contract can say exactly when `send`
/// and `receive` fail. Exclusive access (the real channel's internal lock) is
/// modelled by `&mut self`: at most one party is mid-operation at a time.
pub struct JobQueue {
    messages: Vec<Message>,
    consumers: usize,
    producer_open: bool,
}

impl JobQueue {
    /// The queued messages, oldest first.
    pub closed spec fn messages(self) -> Seq<Message> {
        self.messages@
    }

    /// How many consumer handles are still live.
    pub closed spec fn consumers(self) -> nat {
        self.consumers as nat
    }

    /// Whether the producer side is still open.
    pub closed spec fn producer_open(self) -> bool {
        self.producer_open
    }

    /// Creates an empty queue with `consumers` live consumer handles.
    pub fn new(consumers: usize) -> (q: JobQueue)
        ensures
            q.messages() == Seq::<Message>::empty(),
            q.consumers() == consumers,
            q.producer_open(),
    {
        JobQueue { messages: Vec::new(), consumers, producer_open: true }
    }

    /// Enqueues `m` at the back. Never blocks; fails exactly when every
    /// consumer has already gone away, and then changes nothing.
    pub fn send(&mut self, m: Message) -> (r: Result<(), SendError>)
        ensures
            old(self).consumers() > 0 ==> {
                &&& r is Ok
                &&& final(self).messages() == old(self).messages().push(m)
            },
            old(self).consumers() == 0 ==> r is Err,
            r is Err ==> final(self).messages() == old(self).messages(),
            final(self).consumers() == old(self).consumers(),
            final(self).producer_open() == old(self).producer_open(),
    {
        if self.consumers == 0 {
            Err(SendError)
        } else {
            self.messages.push(m);
            Ok(())
        }
    }

    /// Dequeues the oldest message, if one is ready. Exactly one consumer
    /// obtains any given message; with no message ready, the outcome says
    /// whether the caller should wait (`Empty`) or give up (`Disconnected`).
    pub fn receive(&mut self) -> (r: Received)
        ensures
            old(self).messages().len() > 0 ==> {
                &&& r == Received::Message(old(self).messages()[0])
                &&& final(self).messages() == old(self).messages().drop_first()
            },
            old(self).messages().len() == 0 ==> {
                &&& final(self).messages() == old(self).messages()
                &&& r == (if old(self).producer_open() { Received::Empty } else {
                    Received::Disconnected
                })
            },
            final(self).consumers() == old(self).consumers(),
            final(self).producer_open() == old(self).producer_open(),
    {
        if self.messages.len() > 0 {
            let m = self.messages.remove(0);
            proof {
                assert(old(self).messages().remove(0) =~= old(self).messages().drop_first());
            }
            Received::Message(m)
        } else if self.producer_open {
            Received::Empty
        } else {
            Received::Disconnected
        }
    }

    /// Records that one consumer handle has gone away.
    pub fn consumer_gone(&mut self)
        requires
            old(self).consumers() > 0,
        ensures
            final(self).consumers() == old(self).consumers() - 1,
            final(self).messages() == old(self).messages(),
            final(self).producer_open() == old(self).producer_open(),
    {
        self.consumers = self.consumers - 1;
    }

    /// Records that the producer side has been dropped: queued messages are
    /// still delivered, after which `receive` reports `Disconnected`.
    pub fn close_producer(&mut self)
        ensures
            !final(self).producer_open(),
            final(self).messages() == old(self).messages(),
            final(self).consumers() == old(self).consumers(),
    {
        self.producer_open = false;
    }

    /// How many messages are queued.
    pub fn message_count(&self) -> (n: usize)
        ensures
            n == self.messages().len(),
    {
        self.messages.len()
    }
}

} // verus!
