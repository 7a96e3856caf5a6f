use vstd::prelude::*;
use vstd::slice::slice_to_vec;
use vstd::string::*;
use vstd::utf8::*;
use actix_http::ws::ProtocolError as WireError;

verus! {

broadcast use {encode_utf8_valid_utf8, encode_utf8_decode_utf8, decode_utf8_encode_utf8};

/// The largest payload a control frame (ping, pong, close) may carry.
pub const MAX_CONTROL_PAYLOAD: usize = 125;

/// The kind of a frame.
#[derive(Clone, Copy, Debug, PartialEq, Eq, Structural)]
pub enum OpCode {
    Continue,
    Text,
    Binary,
    Close,
    Ping,
    Pong,
}

impl OpCode {
    /// Ping, pong and close frames are control frames.
    pub open spec fn is_control_spec(self) -> bool {
        self is Close || self is Ping || self is Pong
    }

    pub fn is_control(&self) -> (r: bool)
        ensures
            r == self.is_control_spec(),
    {
        match self {
            OpCode::Close | OpCode::Ping | OpCode::Pong => true,
            _ => false,
        }
    }
}

/// One pre-parsed wire frame: its opcode, its fin bit and its payload.
#[derive(Clone, Debug, PartialEq, Eq)]
pub struct Frame {
    pub opcode: OpCode,
    pub fin: bool,
    pub payload: Vec<u8>,
}

pub struct FrameView {
    pub opcode: OpCode,
    pub fin: bool,
    pub payload: Seq<u8>,
}

impl View for Frame {
    type V = FrameView;

    open spec fn view(&self) -> FrameView {
        FrameView { opcode: self.opcode, fin: self.fin, payload: self.payload@ }
    }
}

/// Why a connection is being closed: a status code and an optional text.
#[derive(Clone, Debug, PartialEq, Eq)]
pub struct CloseReason {
    pub code: u16,
    pub description: Option<String>,
}

pub struct CloseReasonView {
    pub code: u16,
    pub description: Option<Seq<char>>,
}

impl View for CloseReason {
    type V = CloseReasonView;

    open spec fn view(&self) -> CloseReasonView {
        CloseReasonView {
            code: self.code,
            description: match self.description {
                Some(d) => Some(d@),
                None => None,
            },
        }
    }
}

pub open spec fn reason_view(r: Option<CloseReason>) -> Option<CloseReasonView> {
    match r {
        Some(r) => Some(r@),
        None => None,
    }
}

/// A copy of a close reason.
pub fn clone_reason(r: &Option<CloseReason>) -> (c: Option<CloseReason>)
    ensures
        reason_view(c) == reason_view(*r),
{
    match r {
        Some(r) => Some(CloseReason { code: r.code, description: r.description.clone() }),
        None => None,
    }
}

/// A complete message, as the application sends and receives it.
#[derive(Clone, Debug, PartialEq, Eq)]
pub enum Message {
    Text(String),
    Binary(Vec<u8>),
    Ping(Vec<u8>),
    Pong(Vec<u8>),
    Close(Option<CloseReason>),
}

pub enum MessageView {
    Text(Seq<char>),
    Binary(Seq<u8>),
    Ping(Seq<u8>),
    Pong(Seq<u8>),
    Close(Option<CloseReasonView>),
}

impl View for Message {
    type V = MessageView;

    open spec fn view(&self) -> MessageView {
        match self {
            Message::Text(s) => MessageView::Text(s@),
            Message::Binary(b) => MessageView::Binary(b@),
            Message::Ping(b) => MessageView::Ping(b@),
            Message::Pong(b) => MessageView::Pong(b@),
            Message::Close(r) => MessageView::Close(reason_view(*r)),
        }
    }
}

/// Violations of the framing protocol found on the inbound side.
#[derive(Clone, Copy, Debug, PartialEq, Eq, Structural)]
pub enum ProtocolError {
    /// The frame header could not be read.
    Malformed,
    /// A continuation frame arrived while no message was open.
    UnexpectedContinuation,
    /// A text or binary frame arrived while another message was still open.
    InterleavedMessage,
    /// A control frame had its fin bit clear.
    FragmentedControl,
    /// A text or binary frame without its fin bit was decoded as a whole message.
    Incomplete,
    /// A text message was not well-formed UTF-8.
    InvalidText,
    /// A close frame's payload was not a valid status code and reason.
    InvalidClose,
}

/// The status codes a peer may send in a close frame.
pub open spec fn valid_close_code(code: u16) -> bool {
    (1000 <= code <= 1003) || (1007 <= code <= 1014) || (3000 <= code <= 4999)
}

/// A close payload: the code in big-endian order, then the reason's UTF-8 bytes.
pub open spec fn close_payload(r: Option<CloseReasonView>) -> Seq<u8> {
    match r {
        None => Seq::empty(),
        Some(r) => seq![(r.code / 256) as u8, (r.code % 256) as u8] + match r.description {
            None => Seq::empty(),
            Some(d) => encode_utf8(d),
        },
    }
}

/// What a received close payload stands for; `None` when it is invalid.
pub open spec fn parse_close(p: Seq<u8>) -> Option<Option<CloseReasonView>> {
    if p.len() == 0 {
        Some(None)
    } else if p.len() == 1 {
        None
    } else {
        let code = (p[0] as int * 256 + p[1] as int) as u16;
        let rest = p.subrange(2, p.len() as int);
        if !valid_close_code(code) {
            None
        } else if rest.len() == 0 {
            Some(Some(CloseReasonView { code, description: None }))
        } else if !valid_utf8(rest) {
            None
        } else {
            Some(Some(CloseReasonView { code, description: Some(decode_utf8(rest)) }))
        }
    }
}

/// The single final frame that carries a message.
pub open spec fn encode_message(m: MessageView) -> FrameView {
    match m {
        MessageView::Text(s) => FrameView { opcode: OpCode::Text, fin: true, payload: encode_utf8(s) },
        MessageView::Binary(b) => FrameView { opcode: OpCode::Binary, fin: true, payload: b },
        MessageView::Ping(b) => FrameView { opcode: OpCode::Ping, fin: true, payload: b },
        MessageView::Pong(b) => FrameView { opcode: OpCode::Pong, fin: true, payload: b },
        MessageView::Close(r) => FrameView { opcode: OpCode::Close, fin: true, payload: close_payload(r) },
    }
}

/// The message that a text or binary payload completes.
pub open spec fn complete_data(text: bool, p: Seq<u8>) -> Result<MessageView, ProtocolError> {
    if !text {
        Ok(MessageView::Binary(p))
    } else if valid_utf8(p) {
        Ok(MessageView::Text(decode_utf8(p)))
    } else {
        Err(ProtocolError::InvalidText)
    }
}

/// The message that one frame carries on its own.
pub open spec fn decode_frame(f: FrameView) -> Result<MessageView, ProtocolError> {
    if f.opcode is Continue {
        Err(ProtocolError::UnexpectedContinuation)
    } else if !f.fin {
        if f.opcode.is_control_spec() {
            Err(ProtocolError::FragmentedControl)
        } else {
            Err(ProtocolError::Incomplete)
        }
    } else {
        match f.opcode {
            OpCode::Text => complete_data(true, f.payload),
            OpCode::Binary => complete_data(false, f.payload),
            OpCode::Ping => Ok(MessageView::Ping(f.payload)),
            OpCode::Pong => Ok(MessageView::Pong(f.payload)),
            _ => match parse_close(f.payload) {
                Some(r) => Ok(MessageView::Close(r)),
                None => Err(ProtocolError::InvalidClose),
            },
        }
    }
}

/// Relies on std's `String::from_utf8`: it succeeds exactly on well-formed UTF-8
/// and then holds the characters that the bytes encode.
#[verifier::external_body]
fn string_from_utf8(b: Vec<u8>) -> (r: Option<String>)
    ensures
        r is Some <==> valid_utf8(b@),
        r matches Some(s) ==> s@ == decode_utf8(b@),
{
    String::from_utf8(b).ok()
}

#[verifier::external_type_specification]
#[verifier::external_body]
pub struct ExWireError(WireError);

/// Relies on actix_http's `Parser::try_parse_close_payload`: an empty payload is
/// no reason; otherwise a two-byte big-endian code among the allowed ones,
/// followed by an optional well-formed UTF-8 text.
#[verifier::external_body]
fn try_parse_close_payload(payload: &Vec<u8>) -> (r: Result<
    Option<CloseReason>,
    WireError,
>)
    ensures
        r is Ok <==> parse_close(payload@) is Some,
        r matches Ok(v) ==> parse_close(payload@) == Some(reason_view(v)),
{
    match actix_http::ws::Parser::try_parse_close_payload(payload.as_slice()) {
        Ok(Some(c)) => Ok(Some(CloseReason { code: u16::from(c.code), description: c.description })),
        Ok(None) => Ok(None),
        Err(e) => Err(e),
    }
}

/// The bytes of a text message.
fn text_bytes(s: &String) -> (r: Vec<u8>)
    ensures
        r@ == encode_utf8(s@),
{
    slice_to_vec(s.as_str().as_bytes())
}

/// The message that a completed text or binary payload stands for.
pub fn complete(text: bool, payload: Vec<u8>) -> (r: Result<Message, ProtocolError>)
    ensures
        r matches Ok(m) ==> complete_data(text, payload@) == Ok::<MessageView, ProtocolError>(m@),
        r matches Err(e) ==> complete_data(text, payload@) == Err::<MessageView, ProtocolError>(e),
{
    if !text {
        Ok(Message::Binary(payload))
    } else {
        match string_from_utf8(payload) {
            Some(s) => Ok(Message::Text(s)),
            None => Err(ProtocolError::InvalidText),
        }
    }
}

/// Decodes one frame that carries a whole message.
pub fn decode(f: Frame) -> (r: Result<Message, ProtocolError>)
    ensures
        r matches Ok(m) ==> decode_frame(f@) == Ok::<MessageView, ProtocolError>(m@),
        r matches Err(e) ==> decode_frame(f@) == Err::<MessageView, ProtocolError>(e),
{
    if f.opcode == OpCode::Continue {
        return Err(ProtocolError::UnexpectedContinuation);
    }
    if !f.fin {
        if f.opcode.is_control() {
            return Err(ProtocolError::FragmentedControl);
        }
        return Err(ProtocolError::Incomplete);
    }
    match f.opcode {
        OpCode::Text => complete(true, f.payload),
        OpCode::Binary => complete(false, f.payload),
        OpCode::Ping => Ok(Message::Ping(f.payload)),
        OpCode::Pong => Ok(Message::Pong(f.payload)),
        _ => match try_parse_close_payload(&f.payload) {
            Ok(r) => Ok(Message::Close(r)),
            Err(_) => Err(ProtocolError::InvalidClose),
        },
    }
}

/// The payload of a close frame that carries `r`.
pub fn close_payload_of(r: &Option<CloseReason>) -> (p: Vec<u8>)
    ensures
        p@ == close_payload(reason_view(*r)),
{
    match r {
        None => Vec::new(),
        Some(r) => {
            let mut p: Vec<u8> = Vec::new();
            p.push((r.code / 256) as u8);
            p.push((r.code % 256) as u8);
            match &r.description {
                None => {},
                Some(d) => {
                    let mut b = text_bytes(d);
                    p.append(&mut b);
                },
            }
            assert(p@ == close_payload(reason_view(Some(*r))));
            p
        },
    }
}

/// Encodes a message as one final frame.
pub fn encode(m: &Message) -> (f: Frame)
    ensures
        f@ == encode_message(m@),
{
    match m {
        Message::Text(s) => Frame { opcode: OpCode::Text, fin: true, payload: text_bytes(s) },
        Message::Binary(b) => Frame { opcode: OpCode::Binary, fin: true, payload: b.clone() },
        Message::Ping(b) => Frame { opcode: OpCode::Ping, fin: true, payload: b.clone() },
        Message::Pong(b) => Frame { opcode: OpCode::Pong, fin: true, payload: b.clone() },
        Message::Close(r) => Frame { opcode: OpCode::Close, fin: true, payload: close_payload_of(r) },
    }
}

/// Encoding what a frame decodes to gives that frame back, for every kind of
/// message, empty payloads and close frames with or without a reason included.
pub proof fn lemma_encode_decode(f: FrameView)
    requires
        decode_frame(f) is Ok,
    ensures
        encode_message(decode_frame(f)->Ok_0) == f,
{
    if f.opcode is Close {
        let p = f.payload;
        if p.len() >= 2 {
            let code = (p[0] as int * 256 + p[1] as int) as u16;
            assert((code / 256) as u8 == p[0] && (code % 256) as u8 == p[1]) by (nonlinear_arith)
                requires
                    code == (p[0] as int * 256 + p[1] as int) as u16,
                    0 <= p[0] < 256,
                    0 <= p[1] < 256,
            ;
            let rest = p.subrange(2, p.len() as int);
            assert(p =~= seq![p[0], p[1]] + rest);
        }
        assert(close_payload(parse_close(p)->Some_0) =~= p);
    }
}

} // verus!
