//! The outbound queue: an unbounded FIFO hand-off of messages from the input
//! loop (the producer) to the socket loop (the consumer), with the closing of
//! either end.
use std::collections::VecDeque;
use vstd::prelude::*;

verus! {

/// What a queue holds, as mathematical values.
pub struct QueueView {
    pub pending: Seq<Seq<char>>,
    pub producer_open: bool,
    pub consumer_open: bool,
}

/// The outcome of a non-blocking receive.
pub enum Received {
    /// The oldest pending message.
    Message(String),
    /// Nothing pending; the producer may still send.
    Empty,
    /// Nothing pending, and the producer is gone.
    Disconnected,
}

/// Why a send was refused: the consumer is gone. The message is handed back.
pub struct SendError(pub String);

pub struct OutboundQueue {
    pending: VecDeque<String>,
    producer_open: bool,
    consumer_open: bool,
}

/// The queue after a send of `m`: appended when the consumer is still there.
pub open spec fn sent(q: QueueView, m: Seq<char>) -> QueueView {
    if q.consumer_open {
        QueueView { pending: q.pending.push(m), ..q }
    } else {
        q
    }
}

/// The queue after a receive: the oldest message leaves, if there is one.
pub open spec fn after_receive(q: QueueView) -> QueueView {
    if q.pending.len() > 0 {
        QueueView { pending: q.pending.drop_first(), ..q }
    } else {
        q
    }
}

/// The queue after sending each message of `ms` in turn.
pub open spec fn sent_all(q: QueueView, ms: Seq<Seq<char>>) -> QueueView
    decreases ms.len(),
{
    if ms.len() == 0 {
        q
    } else {
        sent_all(sent(q, ms[0]), ms.drop_first())
    }
}

/// The messages that `n` receives in turn hand out.
pub open spec fn received_n(q: QueueView, n: nat) -> Seq<Seq<char>>
    decreases n,
{
    if n == 0 || q.pending.len() == 0 {
        Seq::empty()
    } else {
        seq![q.pending[0]] + received_n(after_receive(q), (n - 1) as nat)
    }
}

impl View for OutboundQueue {
    type V = QueueView;

    closed spec fn view(&self) -> QueueView {
        QueueView {
            pending: self.pending@.map_values(|s: String| s@),
            producer_open: self.producer_open,
            consumer_open: self.consumer_open,
        }
    }
}

impl OutboundQueue {
    /// An empty queue with both ends open.
    pub fn new() -> (r: Self)
        ensures
            r@.pending == Seq::<Seq<char>>::empty(),
            r@.producer_open,
            r@.consumer_open,
    {
        let r = OutboundQueue { pending: VecDeque::new(), producer_open: true, consumer_open: true };
        assert(r@.pending =~= Seq::<Seq<char>>::empty());
        r
    }

    /// Appends `msg`, unless the consumer is gone.
    pub fn send(&mut self, msg: String) -> (r: Result<(), SendError>)
        ensures
            final(self)@ == sent(old(self)@, msg@),
            r is Ok <==> old(self)@.consumer_open,
            r matches Err(e) ==> e.0@ == msg@,
    {
        if !self.consumer_open {
            return Err(SendError(msg));
        }
        self.pending.push_back(msg);
        assert(self@.pending =~= old(self)@.pending.push(msg@));
        Ok(())
    }

    /// Takes the oldest pending message without waiting. Pending messages
    /// are still handed out after the producer is gone.
    pub fn try_recv(&mut self) -> (r: Received)
        ensures
            final(self)@ == after_receive(old(self)@),
            old(self)@.pending.len() > 0 ==> (r matches Received::Message(m) && m@
                == old(self)@.pending[0]),
            old(self)@.pending.len() == 0 && old(self)@.producer_open ==> r is Empty,
            old(self)@.pending.len() == 0 && !old(self)@.producer_open ==> r is Disconnected,
    {
        match self.pending.pop_front() {
            Some(m) => {
                assert(self@.pending =~= old(self)@.pending.drop_first());
                Received::Message(m)
            },
            None => {
                if self.producer_open {
                    Received::Empty
                } else {
                    Received::Disconnected
                }
            },
        }
    }

    /// The producer is gone: no more messages will be sent.
    pub fn close_producer(&mut self)
        ensures
            final(self)@ == (QueueView { producer_open: false, ..old(self)@ }),
    {
        self.producer_open = false;
    }

    /// The consumer is gone: further sends are refused.
    pub fn close_consumer(&mut self)
        ensures
            final(self)@ == (QueueView { consumer_open: false, ..old(self)@ }),
    {
        self.consumer_open = false;
    }

    /// Number of messages waiting.
    pub fn len(&self) -> (r: usize)
        ensures
            r == self@.pending.len(),
    {
        self.pending.len()
    }
}

proof fn lemma_sent_all_pending(q: QueueView, ms: Seq<Seq<char>>)
    requires
        q.consumer_open,
    ensures
        sent_all(q, ms).pending == q.pending + ms,
        sent_all(q, ms).consumer_open,
    decreases ms.len(),
{
    if ms.len() > 0 {
        lemma_sent_all_pending(sent(q, ms[0]), ms.drop_first());
        assert(q.pending.push(ms[0]) + ms.drop_first() =~= q.pending + ms);
    }
}

proof fn lemma_received_n_pending(q: QueueView)
    ensures
        received_n(q, q.pending.len()) == q.pending,
    decreases q.pending.len(),
{
    if q.pending.len() > 0 {
        lemma_received_n_pending(after_receive(q));
        assert(seq![q.pending[0]] + q.pending.drop_first() =~= q.pending);
    }
}

/// First in, first out: when the consumer is there, messages sent in turn
/// are received after those already pending, in the order they were sent.
pub proof fn lemma_fifo(q: QueueView, ms: Seq<Seq<char>>)
    requires
        q.consumer_open,
    ensures
        received_n(sent_all(q, ms), q.pending.len() + ms.len()) == q.pending + ms,
{
    lemma_sent_all_pending(q, ms);
    lemma_received_n_pending(sent_all(q, ms));
}

} // verus!
