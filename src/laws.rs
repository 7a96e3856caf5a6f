use vstd::prelude::*;
use crate::frame::{encode_message, CloseReasonView, FrameView, MessageView};
use crate::outbound::{
    close_step, oversized_control, pull_step, remote_close_step, send_step, with_queue,
    ConnectionView, PullView, SendError,
};

verus! {

/// Sends each message in turn: the final state and the frames that were queued.
pub open spec fn send_all(c: ConnectionView, ms: Seq<MessageView>) -> (ConnectionView, Seq<FrameView>)
    decreases ms.len(),
{
    if ms.len() == 0 {
        (c, Seq::empty())
    } else {
        let (c1, r) = send_step(c, ms[0]);
        let (c2, acc) = send_all(c1, ms.drop_first());
        (c2, if r is Ok { seq![encode_message(ms[0])] + acc } else { acc })
    }
}

/// Pulls `n` times: the final state and what each pull gave.
pub open spec fn pulls(c: ConnectionView, n: nat) -> (ConnectionView, Seq<PullView>)
    decreases n,
{
    if n == 0 {
        (c, Seq::empty())
    } else {
        let (c1, p) = pull_step(c);
        let (c2, ps) = pulls(c1, (n - 1) as nat);
        (c2, seq![p] + ps)
    }
}

pub open spec fn as_pulls(q: Seq<FrameView>) -> Seq<PullView> {
    q.map_values(|f: FrameView| PullView::Frame(f))
}

/// The close frame that carries `r`.
pub open spec fn close_frame(r: Option<CloseReasonView>) -> FrameView {
    encode_message(MessageView::Close(r))
}

/// Sends only ever append to the queue, in call order.
pub proof fn lemma_send_all(c: ConnectionView, ms: Seq<MessageView>)
    ensures
        send_all(c, ms).0 == with_queue(c, c.queue + send_all(c, ms).1),
    decreases ms.len(),
{
    if ms.len() == 0 {
        assert(c.queue + Seq::<FrameView>::empty() =~= c.queue);
    } else {
        let (c1, r) = send_step(c, ms[0]);
        lemma_send_all(c1, ms.drop_first());
        if r is Ok {
            assert(c1.queue + send_all(c1, ms.drop_first()).1 =~= c.queue + send_all(c, ms).1);
        }
    }
}

/// Pulling gives the queued frames from the front, in order.
pub proof fn lemma_drain(c: ConnectionView, n: nat)
    requires
        n <= c.queue.len(),
        !c.finished,
    ensures
        pulls(c, n).0 == with_queue(c, c.queue.skip(n as int)),
        pulls(c, n).1 == as_pulls(c.queue.take(n as int)),
    decreases n,
{
    if n == 0 {
        assert(c.queue.skip(0) =~= c.queue);
        assert(as_pulls(c.queue.take(0)) =~= Seq::<PullView>::empty());
    } else {
        let c1 = pull_step(c).0;
        lemma_drain(c1, (n - 1) as nat);
        assert(c1.queue.skip(n - 1) =~= c.queue.skip(n as int));
        assert(seq![PullView::Frame(c.queue[0])] + as_pulls(c1.queue.take(n - 1)) =~= as_pulls(c.queue.take(n as int)));
    }
}

/// Once this side has sent its close frame, no send or close changes anything.
pub proof fn lemma_nothing_after_close(c: ConnectionView, m: MessageView, r: Option<CloseReasonView>)
    requires
        c.close.local,
    ensures
        send_step(c, m).0 == c,
        send_step(c, m).1 == Err::<(), SendError>(if oversized_control(m) { SendError::InvalidPayload } else { SendError::Closed }),
        close_step(c, r) == (c, Ok::<(), SendError>(())),
{
}

/// Messages sent on an open connection with an empty queue, then a close: the
/// consumer pulls exactly the frames that were accepted, in call order, then
/// one close frame, and never another frame after it.
pub proof fn lemma_sends_then_close(c: ConnectionView, ms: Seq<MessageView>, r: Option<CloseReasonView>)
    requires
        !c.close.local,
        c.queue.len() == 0,
        !c.finished,
    ensures
        ({
            let (c1, acc) = send_all(c, ms);
            let (c2, res) = close_step(c1, r);
            let (d, out) = pulls(c2, acc.len() + 1);
            res is Ok ==> {
                &&& c2.queue == acc.push(close_frame(r))
                &&& out == as_pulls(acc.push(close_frame(r)))
                &&& d.queue.len() == 0
                &&& d.close.local
                &&& forall|m: MessageView| #[trigger] send_step(d, m).0 == d && !(send_step(d, m).1 is Ok)
                &&& forall|r2: Option<CloseReasonView>| #[trigger] close_step(d, r2).0 == d
                &&& !(pull_step(d).1 is Frame)
            }
        }),
{
    let (c1, acc) = send_all(c, ms);
    lemma_send_all(c, ms);
    assert(c.queue + acc =~= acc);
    let (c2, res) = close_step(c1, r);
    if res is Ok {
        assert(c2.queue == acc.push(close_frame(r)));
        lemma_drain(c2, acc.len() + 1);
        let d = pulls(c2, acc.len() + 1).0;
        assert(c2.queue.take(acc.len() + 1 as int) =~= c2.queue);
        assert(d.queue =~= Seq::<FrameView>::empty());
        assert forall|m: MessageView| #[trigger] send_step(d, m).0 == d && !(send_step(d, m).1 is Ok) by {
            lemma_nothing_after_close(d, m, r);
        }
        assert forall|r2: Option<CloseReasonView>| #[trigger] close_step(d, r2).0 == d by {
            lemma_nothing_after_close(d, MessageView::Binary(Seq::empty()), r2);
        }
    }
}

/// Closing twice queues at most one close frame: after an accepted close, a
/// second one succeeds and changes nothing.
pub proof fn lemma_close_twice(c: ConnectionView, r1: Option<CloseReasonView>, r2: Option<CloseReasonView>)
    requires
        close_step(c, r1).1 is Ok,
    ensures
        close_step(close_step(c, r1).0, r2) == (close_step(c, r1).0, Ok::<(), SendError>(())),
{
}

/// A ping or pong whose payload is too long for a control frame is refused
/// before anything is queued.
pub proof fn lemma_oversized_control(c: ConnectionView, m: MessageView)
    requires
        oversized_control(m),
    ensures
        send_step(c, m) == (c, Err::<(), SendError>(SendError::InvalidPayload)),
{
}

/// With the queue at capacity a further send must wait; pulling one frame makes
/// room for exactly one more.
pub proof fn lemma_backpressure(c: ConnectionView, m1: MessageView, m2: MessageView)
    requires
        c.queue.len() == c.capacity,
        c.capacity > 0,
        !c.close.local,
        c.consumer,
        !c.finished,
        !oversized_control(m1),
        !oversized_control(m2),
    ensures
        send_step(c, m1) == (c, Err::<(), SendError>(SendError::Full)),
        pull_step(c).1 == PullView::Frame(c.queue[0]),
        send_step(pull_step(c).0, m1).1 is Ok,
        send_step(send_step(pull_step(c).0, m1).0, m2) == (send_step(pull_step(c).0, m1).0, Err::<(), SendError>(SendError::Full)),
{
}

/// After the peer's close and then this side's close, the consumer gets what
/// was queued, the close frame last, then the end; every later send fails.
pub proof fn lemma_full_close(c: ConnectionView, peer: Option<CloseReasonView>, r: Option<CloseReasonView>, m: MessageView)
    requires
        !c.close.local,
        c.consumer,
        c.queue.len() < c.capacity,
        !c.finished,
    ensures
        ({
            let c1 = remote_close_step(c, peer);
            let (c2, res) = close_step(c1, r);
            let (d, out) = pulls(c2, c2.queue.len());
            &&& c1.close.remote
            &&& res is Ok
            &&& c2.close.local && c2.close.remote
            &&& c2.queue == c.queue.push(close_frame(r))
            &&& out == as_pulls(c2.queue)
            &&& pull_step(d).1 == PullView::End
            &&& send_step(d, m).1 == Err::<(), SendError>(if oversized_control(m) { SendError::InvalidPayload } else { SendError::Closed })
        }),
{
    let c1 = remote_close_step(c, peer);
    let c2 = close_step(c1, r).0;
    lemma_drain(c2, c2.queue.len());
    assert(c2.queue.take(c2.queue.len() as int) =~= c2.queue);
    assert(c2.queue.skip(c2.queue.len() as int) =~= Seq::<FrameView>::empty());
}

} // verus!
