use vstd::prelude::*;
use crate::frame::{
    clone_reason, complete, complete_data, decode, decode_frame, reason_view, Frame, FrameView,
    Message, MessageView, OpCode, ProtocolError,
};
use crate::outbound::{remote_close_step, Connection};

verus! {

/// The message being reassembled, if any.
pub enum Assembly {
    Idle,
    Accumulating { text: bool, payload: Vec<u8> },
}

pub enum AssemblyView {
    Idle,
    Accumulating { text: bool, payload: Seq<u8> },
}

impl View for Assembly {
    type V = AssemblyView;

    open spec fn view(&self) -> AssemblyView {
        match self {
            Assembly::Idle => AssemblyView::Idle,
            Assembly::Accumulating { text, payload } => AssemblyView::Accumulating {
                text: *text,
                payload: payload@,
            },
        }
    }
}

pub open spec fn yielded(r: Result<MessageView, ProtocolError>) -> Result<Option<MessageView>, ProtocolError> {
    match r {
        Ok(m) => Ok(Some(m)),
        Err(e) => Err(e),
    }
}

pub open spec fn result_view(r: Result<Option<Message>, ProtocolError>) -> Result<Option<MessageView>, ProtocolError> {
    match r {
        Ok(Some(m)) => Ok(Some(m@)),
        Ok(None) => Ok(None),
        Err(e) => Err(e),
    }
}

/// One received frame against the message being reassembled: the new
/// assembly state, and a complete message, nothing yet, or a protocol error.
pub open spec fn inbound_step(a: AssemblyView, f: FrameView) -> (AssemblyView, Result<Option<MessageView>, ProtocolError>) {
    match f.opcode {
        OpCode::Continue => match a {
            AssemblyView::Idle => (AssemblyView::Idle, Err(ProtocolError::UnexpectedContinuation)),
            AssemblyView::Accumulating { text, payload } => if f.fin {
                (AssemblyView::Idle, yielded(complete_data(text, payload + f.payload)))
            } else {
                (AssemblyView::Accumulating { text, payload: payload + f.payload }, Ok(None))
            },
        },
        OpCode::Text | OpCode::Binary => if a is Accumulating {
            (AssemblyView::Idle, Err(ProtocolError::InterleavedMessage))
        } else if f.fin {
            (AssemblyView::Idle, yielded(complete_data(f.opcode is Text, f.payload)))
        } else {
            (AssemblyView::Accumulating { text: f.opcode is Text, payload: f.payload }, Ok(None))
        },
        _ => match decode_frame(f) {
            Ok(m) => (a, Ok(Some(m))),
            Err(e) => (AssemblyView::Idle, Err(e)),
        },
    }
}

/// An error or a close message is the last thing the stream yields.
pub open spec fn ends_stream(r: Result<Option<MessageView>, ProtocolError>) -> bool {
    r is Err || r matches Ok(Some(MessageView::Close(_)))
}

/// Feeds each frame in turn, from the front: the final assembly state and what
/// each frame gave.
pub open spec fn run(a: AssemblyView, fs: Seq<FrameView>) -> (AssemblyView, Seq<Result<Option<MessageView>, ProtocolError>>)
    decreases fs.len(),
{
    if fs.len() == 0 {
        (a, Seq::empty())
    } else {
        let (a1, r) = inbound_step(a, fs[0]);
        let (a2, rs) = run(a1, fs.drop_first());
        (a2, seq![r] + rs)
    }
}

/// The payloads of frames, joined in order.
pub open spec fn joined(fs: Seq<FrameView>) -> Seq<u8>
    decreases fs.len(),
{
    if fs.len() == 0 {
        Seq::empty()
    } else {
        fs[0].payload + joined(fs.drop_first())
    }
}

/// The inbound half: turns received frames into whole messages.
pub struct MessageStream {
    assembly: Assembly,
    done: bool,
}

pub struct MessageStreamView {
    pub assembly: AssemblyView,
    pub done: bool,
}

impl View for MessageStream {
    type V = MessageStreamView;

    closed spec fn view(&self) -> MessageStreamView {
        MessageStreamView { assembly: self.assembly@, done: self.done }
    }
}

impl MessageStream {
    pub fn new() -> (s: MessageStream)
        ensures
            s@.assembly is Idle,
            !s@.done,
    {
        MessageStream { assembly: Assembly::Idle, done: false }
    }

    /// Whether the stream has yielded its last item.
    pub fn is_done(&self) -> (r: bool)
        ensures
            r == self@.done,
    {
        self.done
    }

    /// Takes one received frame. A close frame is recorded on the connection;
    /// it and any protocol error end the stream.
    pub fn feed(&mut self, f: Frame, conn: &mut Connection) -> (r: Result<Option<Message>, ProtocolError>)
        requires
            !old(self)@.done,
            old(conn).wf(),
        ensures
            final(conn).wf(),
            result_view(r) == inbound_step(old(self)@.assembly, f@).1,
            final(self)@.assembly == inbound_step(old(self)@.assembly, f@).0,
            final(self)@.done == ends_stream(result_view(r)),
            final(conn)@ == (match r {
                Ok(Some(Message::Close(c))) => remote_close_step(old(conn)@, reason_view(c)),
                _ => old(conn)@,
            }),
    {
        let r: Result<Option<Message>, ProtocolError> = match f.opcode {
            OpCode::Continue => {
                let mut a = Assembly::Idle;
                core::mem::swap(&mut a, &mut self.assembly);
                match a {
                    Assembly::Idle => Err(ProtocolError::UnexpectedContinuation),
                    Assembly::Accumulating { text, payload } => {
                        let mut payload = payload;
                        let mut more = f.payload;
                        payload.append(&mut more);
                        if f.fin {
                            match complete(text, payload) {
                                Ok(m) => Ok(Some(m)),
                                Err(e) => Err(e),
                            }
                        } else {
                            self.assembly = Assembly::Accumulating { text, payload };
                            Ok(None)
                        }
                    },
                }
            },
            OpCode::Text | OpCode::Binary => {
                let text = f.opcode == OpCode::Text;
                match self.assembly {
                    Assembly::Accumulating { .. } => {
                        self.assembly = Assembly::Idle;
                        Err(ProtocolError::InterleavedMessage)
                    },
                    Assembly::Idle => {
                        if f.fin {
                            match complete(text, f.payload) {
                                Ok(m) => Ok(Some(m)),
                                Err(e) => Err(e),
                            }
                        } else {
                            self.assembly = Assembly::Accumulating { text, payload: f.payload };
                            Ok(None)
                        }
                    },
                }
            },
            _ => match decode(f) {
                Ok(m) => Ok(Some(m)),
                Err(e) => {
                    self.assembly = Assembly::Idle;
                    Err(e)
                },
            },
        };
        match &r {
            Ok(Some(Message::Close(c))) => {
                conn.record_remote_close(clone_reason(c));
                self.done = true;
            },
            Err(_) => {
                self.done = true;
            },
            _ => {},
        }
        r
    }
}

/// Data frames between the first and the last fragment of a message.
pub open spec fn middle_fragments(mids: Seq<FrameView>) -> bool {
    forall|i: int| 0 <= i < mids.len() ==> (#[trigger] mids[i]).opcode is Continue && !mids[i].fin
}

proof fn lemma_accumulate(text: bool, p: Seq<u8>, mids: Seq<FrameView>)
    requires
        middle_fragments(mids),
    ensures
        run(AssemblyView::Accumulating { text, payload: p }, mids).0
            == (AssemblyView::Accumulating { text, payload: p + joined(mids) }),
        run(AssemblyView::Accumulating { text, payload: p }, mids).1
            == Seq::new(mids.len(), |i: int| Ok::<Option<MessageView>, ProtocolError>(None)),
    decreases mids.len(),
{
    if mids.len() == 0 {
        assert(p + joined(mids) =~= p);
        assert(run(AssemblyView::Accumulating { text, payload: p }, mids).1
            =~= Seq::new(mids.len(), |i: int| Ok::<Option<MessageView>, ProtocolError>(None)));
    } else {
        let rest = mids.drop_first();
        assert(middle_fragments(rest)) by {
            assert forall|i: int| 0 <= i < rest.len() implies (#[trigger] rest[i]).opcode is Continue
                && !rest[i].fin by {
                assert(rest[i] == mids[i + 1]);
            }
        }
        assert(mids[0].opcode is Continue && !mids[0].fin);
        lemma_accumulate(text, p + mids[0].payload, rest);
        assert(p + mids[0].payload + joined(rest) =~= p + joined(mids));
        assert(run(AssemblyView::Accumulating { text, payload: p }, mids).1
            =~= Seq::new(mids.len(), |i: int| Ok::<Option<MessageView>, ProtocolError>(None)));
    }
}

/// A text message split into a first text fragment, any number of middle
/// continuation fragments and a final continuation fragment comes out once, as
/// the joined payloads decoded as text, and the reassembly is idle afterwards.
pub proof fn lemma_fragmented_text(first: Seq<u8>, mids: Seq<FrameView>, last: Seq<u8>)
    requires
        middle_fragments(mids),
    ensures
        ({
            let fs = seq![FrameView { opcode: OpCode::Text, fin: false, payload: first }] + mids
                + seq![FrameView { opcode: OpCode::Continue, fin: true, payload: last }];
            let (a, rs) = run(AssemblyView::Idle, fs);
            &&& a is Idle
            &&& rs.len() == fs.len()
            &&& forall|i: int| 0 <= i < rs.len() - 1 ==> rs[i] == Ok::<Option<MessageView>, ProtocolError>(None)
            &&& rs[rs.len() - 1] == yielded(complete_data(true, first + joined(mids) + last))
        }),
{
    let head = FrameView { opcode: OpCode::Text, fin: false, payload: first };
    let tail = FrameView { opcode: OpCode::Continue, fin: true, payload: last };
    let fs = seq![head] + mids + seq![tail];
    let acc = AssemblyView::Accumulating { text: true, payload: first };
    lemma_run_append(acc, mids, seq![tail]);
    lemma_accumulate(true, first, mids);
    assert(fs.drop_first() =~= mids + seq![tail]);
    assert(inbound_step(AssemblyView::Idle, head) == (acc, Ok::<Option<MessageView>, ProtocolError>(None)));
    let mid = AssemblyView::Accumulating { text: true, payload: first + joined(mids) };
    let one = seq![tail];
    assert(one.drop_first() =~= Seq::<FrameView>::empty());
    let last_r = yielded(complete_data(true, first + joined(mids) + last));
    assert(inbound_step(mid, tail) == (AssemblyView::Idle, last_r));
    assert(one[0] == tail);
    assert(run(AssemblyView::Idle, one.drop_first()).0 == AssemblyView::Idle);
    assert(run(AssemblyView::Idle, one.drop_first()).1 =~= Seq::empty());
    assert(run(mid, one).0 == AssemblyView::Idle);
    assert(run(mid, one).1 =~= seq![last_r]);
    let inner = run(acc, mids + one);
    assert(inner.0 == AssemblyView::Idle);
    assert(inner.1 =~= Seq::new(mids.len(), |i: int| Ok::<Option<MessageView>, ProtocolError>(None)) + seq![last_r]);
    let (a, rs) = run(AssemblyView::Idle, fs);
    assert(rs =~= seq![Ok::<Option<MessageView>, ProtocolError>(None)] + inner.1);
    assert(rs.len() == fs.len());
    assert forall|i: int| 0 <= i < rs.len() - 1 implies rs[i] == Ok::<Option<MessageView>, ProtocolError>(None) by {
        if i > 0 {
            assert(rs[i] == inner.1[i - 1]);
        }
    }
}

/// Running over two runs of frames is running over the first, then the second.
proof fn lemma_run_append(a: AssemblyView, xs: Seq<FrameView>, ys: Seq<FrameView>)
    ensures
        run(a, xs + ys).0 == run(run(a, xs).0, ys).0,
        run(a, xs + ys).1 == run(a, xs).1 + run(run(a, xs).0, ys).1,
    decreases xs.len(),
{
    if xs.len() == 0 {
        assert(xs + ys =~= ys);
        assert(run(a, xs).1 + run(run(a, xs).0, ys).1 =~= run(run(a, xs).0, ys).1);
    } else {
        let a1 = inbound_step(a, xs[0]).0;
        lemma_run_append(a1, xs.drop_first(), ys);
        assert((xs + ys).drop_first() =~= xs.drop_first() + ys);
        assert(run(a, xs + ys).1 =~= run(a, xs).1 + run(run(a, xs).0, ys).1);
    }
}

} // verus!
