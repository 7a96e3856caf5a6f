use vstd::prelude::*;
use crate::close::{after_local_close, after_remote_close, CloseState, CloseStateView};
use crate::frame::{
    encode, encode_message, reason_view, CloseReason, CloseReasonView, Frame, FrameView,
    Message, MessageView, MAX_CONTROL_PAYLOAD,
};

verus! {

/// Why a send did not enqueue its frame.
#[derive(Clone, Copy, Debug, PartialEq, Eq, Structural)]
pub enum SendError {
    /// A close frame was already sent, or the consumer of the queue is gone.
    Closed,
    /// A ping or pong payload is longer than a control frame may carry.
    InvalidPayload,
    /// The queue is at capacity: the sender waits until a frame is pulled.
    Full,
}

/// What one pull from the outbound side gives.
#[derive(Clone, Debug, PartialEq, Eq)]
pub enum Pull {
    Frame(Frame),
    /// Nothing is queued yet, but more may come.
    Pending,
    /// The outbound sequence is over.
    End,
}

pub enum PullView {
    Frame(FrameView),
    Pending,
    End,
}

impl View for Pull {
    type V = PullView;

    open spec fn view(&self) -> PullView {
        match self {
            Pull::Frame(f) => PullView::Frame(f@),
            Pull::Pending => PullView::Pending,
            Pull::End => PullView::End,
        }
    }
}

/// The state the sending handles, the outbound consumer and the inbound stream
/// share: the close handshake and a bounded FIFO of frames waiting to go out.
pub struct Connection {
    close: CloseState,
    queue: Vec<Frame>,
    capacity: usize,
    senders: u64,
    consumer_alive: bool,
    finished: bool,
}

pub struct ConnectionView {
    pub close: CloseStateView,
    pub queue: Seq<FrameView>,
    pub capacity: nat,
    pub senders: nat,
    pub consumer: bool,
    pub finished: bool,
}

impl View for Connection {
    type V = ConnectionView;

    closed spec fn view(&self) -> ConnectionView {
        ConnectionView {
            close: self.close@,
            queue: self.queue@.map_values(|f: Frame| f@),
            capacity: self.capacity as nat,
            senders: self.senders as nat,
            consumer: self.consumer_alive,
            finished: self.finished,
        }
    }
}

/// A ping or pong whose payload a control frame cannot carry.
pub open spec fn oversized_control(m: MessageView) -> bool {
    match m {
        MessageView::Ping(b) => b.len() > MAX_CONTROL_PAYLOAD,
        MessageView::Pong(b) => b.len() > MAX_CONTROL_PAYLOAD,
        _ => false,
    }
}

pub open spec fn with_queue(c: ConnectionView, q: Seq<FrameView>) -> ConnectionView {
    ConnectionView { queue: q, ..c }
}

/// Sending a text, binary, ping or pong message.
pub open spec fn send_step(c: ConnectionView, m: MessageView) -> (ConnectionView, Result<(), SendError>) {
    if oversized_control(m) {
        (c, Err(SendError::InvalidPayload))
    } else if c.close.local || !c.consumer {
        (c, Err(SendError::Closed))
    } else if c.queue.len() >= c.capacity {
        (c, Err(SendError::Full))
    } else {
        (with_queue(c, c.queue.push(encode_message(m))), Ok(()))
    }
}

/// Closing from this side: at most one close frame is ever queued.
pub open spec fn close_step(c: ConnectionView, r: Option<CloseReasonView>) -> (ConnectionView, Result<(), SendError>) {
    if c.close.local {
        (c, Ok(()))
    } else if !c.consumer {
        (c, Err(SendError::Closed))
    } else if c.queue.len() >= c.capacity {
        (c, Err(SendError::Full))
    } else {
        (
            ConnectionView {
                close: after_local_close(c.close, r),
                queue: c.queue.push(encode_message(MessageView::Close(r))),
                ..c
            },
            Ok(()),
        )
    }
}

/// One pull by the consumer: the oldest queued frame, or the end once no more
/// output can come (every sender gone, or both close frames exchanged).
pub open spec fn pull_step(c: ConnectionView) -> (ConnectionView, PullView) {
    if c.finished {
        (c, PullView::End)
    } else if c.queue.len() > 0 {
        (with_queue(c, c.queue.drop_first()), PullView::Frame(c.queue[0]))
    } else if c.senders == 0 || (c.close.local && c.close.remote) {
        (ConnectionView { finished: true, ..c }, PullView::End)
    } else {
        (c, PullView::Pending)
    }
}

pub open spec fn remote_close_step(c: ConnectionView, r: Option<CloseReasonView>) -> ConnectionView {
    ConnectionView { close: after_remote_close(c.close, r), ..c }
}

impl Connection {
    pub closed spec fn wf(&self) -> bool {
        self.queue.len() <= self.capacity
    }

    /// A fresh connection with one sending handle and room for `capacity` frames.
    pub fn new(capacity: usize) -> (c: Connection)
        ensures
            c.wf(),
            c@.capacity == capacity,
            c@.queue.len() == 0,
            c@.senders == 1,
            c@.consumer,
            !c@.finished,
            !c@.close.local,
            !c@.close.remote,
            c@.close.reason is None,
    {
        let c = Connection {
            close: CloseState::new(),
            queue: Vec::new(),
            capacity,
            senders: 1,
            consumer_alive: true,
            finished: false,
        };
        assert(c@.queue =~= Seq::<FrameView>::empty());
        c
    }

    pub fn close_state(&self) -> (s: &CloseState)
        ensures
            s@ == self@.close,
    {
        &self.close
    }

    pub fn queued(&self) -> (n: usize)
        ensures
            n == self@.queue.len(),
    {
        self.queue.len()
    }

    pub fn capacity(&self) -> (n: usize)
        ensures
            n == self@.capacity,
    {
        self.capacity
    }

    /// Enqueues a text, binary, ping or pong message.
    pub fn try_send(&mut self, m: &Message) -> (r: Result<(), SendError>)
        requires
            old(self).wf(),
            !(m is Close),
        ensures
            final(self).wf(),
            final(self)@ == send_step(old(self)@, m@).0,
            r == send_step(old(self)@, m@).1,
    {
        let oversized = match m {
            Message::Ping(b) => b.len() > MAX_CONTROL_PAYLOAD,
            Message::Pong(b) => b.len() > MAX_CONTROL_PAYLOAD,
            _ => false,
        };
        if oversized {
            return Err(SendError::InvalidPayload);
        }
        if self.close.local_close_sent() || !self.consumer_alive {
            return Err(SendError::Closed);
        }
        if self.queue.len() >= self.capacity {
            return Err(SendError::Full);
        }
        let f = encode(m);
        self.queue.push(f);
        assert(self@.queue =~= old(self)@.queue.push(encode_message(m@)));
        Ok(())
    }

    /// Sends a close frame unless one was already sent.
    pub fn try_close(&mut self, reason: Option<CloseReason>) -> (r: Result<(), SendError>)
        requires
            old(self).wf(),
        ensures
            final(self).wf(),
            final(self)@ == close_step(old(self)@, reason_view(reason)).0,
            r == close_step(old(self)@, reason_view(reason)).1,
    {
        if self.close.local_close_sent() {
            return Ok(());
        }
        if !self.consumer_alive {
            return Err(SendError::Closed);
        }
        if self.queue.len() >= self.capacity {
            return Err(SendError::Full);
        }
        let m = Message::Close(reason);
        let f = encode(&m);
        let r = match m {
            Message::Close(r) => r,
            _ => None,
        };
        self.close.record_local_close(r);
        self.queue.push(f);
        assert(self@.queue =~= old(self)@.queue.push(encode_message(MessageView::Close(reason_view(reason)))));
        Ok(())
    }

    /// Takes the next frame for the transport, or says why there is none.
    pub fn pull(&mut self) -> (p: Pull)
        requires
            old(self).wf(),
        ensures
            final(self).wf(),
            final(self)@ == pull_step(old(self)@).0,
            p@ == pull_step(old(self)@).1,
    {
        if self.finished {
            return Pull::End;
        }
        if self.queue.len() > 0 {
            let f = self.queue.remove(0);
            assert(self@.queue =~= old(self)@.queue.drop_first());
            return Pull::Frame(f);
        }
        if self.senders == 0 || (self.close.local_close_sent() && self.close.remote_close_received()) {
            self.finished = true;
            return Pull::End;
        }
        Pull::Pending
    }

    /// Records the peer's close frame.
    pub fn record_remote_close(&mut self, r: Option<CloseReason>)
        requires
            old(self).wf(),
        ensures
            final(self).wf(),
            final(self)@ == remote_close_step(old(self)@, reason_view(r)),
    {
        self.close.record_remote_close(r);
    }

    /// Another sending handle shares the connection; `false`, with nothing
    /// changed, when the count cannot grow.
    pub fn add_sender(&mut self) -> (added: bool)
        requires
            old(self).wf(),
        ensures
            final(self).wf(),
            added == (old(self)@.senders < u64::MAX),
            final(self)@ == (if added {
                ConnectionView { senders: old(self)@.senders + 1, ..old(self)@ }
            } else {
                old(self)@
            }),
    {
        if self.senders < u64::MAX {
            self.senders = self.senders + 1;
            true
        } else {
            false
        }
    }

    /// A sending handle is gone.
    pub fn remove_sender(&mut self)
        requires
            old(self).wf(),
        ensures
            final(self).wf(),
            final(self)@ == (if old(self)@.senders > 0 {
                ConnectionView { senders: (old(self)@.senders - 1) as nat, ..old(self)@ }
            } else {
                old(self)@
            }),
    {
        if self.senders > 0 {
            self.senders = self.senders - 1;
        }
    }

    /// The consumer of the queue is gone: no send can succeed any more.
    pub fn drop_consumer(&mut self)
        requires
            old(self).wf(),
        ensures
            final(self).wf(),
            final(self)@ == (ConnectionView { consumer: false, ..old(self)@ }),
    {
        self.consumer_alive = false;
    }
}

} // verus!
