//! Messages and their length-prefixed binary frames.
//!
//! A frame is a header of nine bytes, the kind tag and the payload length as
//! a little-endian `u64`, followed by exactly that many payload bytes.

use vstd::prelude::*;
use vstd::slice::slice_subrange;
use crate::cake::tensor::{
    lemma_tensor_canonical, lemma_tensor_roundtrip, parse_tensor, u64_at, TensorPayload, TensorView,
};
use crate::cake::topology::BlockRange;
use crate::cake::wire::{get_u64, lemma_u64_le_canonical, lemma_u64_le_roundtrip, put_u64, u64_le};

verus! {

/// Why bytes were refused as a frame. A connection that meets one of these is
/// closed; nothing of the frame is used.
#[derive(Clone, Copy, Debug, PartialEq, Eq)]
pub enum ProtocolError {
    /// Fewer bytes than the header, or than the header declares.
    Truncated,
    /// More bytes than the header declares.
    TrailingBytes,
    /// The payload cannot hold the fields of its message kind.
    MalformedPayload,
    /// The kind tag names no message.
    UnknownKind(u8),
    /// The peer speaks another version of the protocol.
    UnsupportedVersion(u8),
    /// The data type tag names no data type.
    UnknownDType(u8),
    /// The reason code names no reason.
    UnknownReason(u8),
    /// The tensor's byte buffer is not as long as its shape and data type say.
    ShapeMismatch,
    /// A well-formed message that may not come at this point of the exchange.
    UnexpectedMessage,
}

/// Version of the protocol, sent in every `Hello`.
pub const PROTOCOL_VERSION: u8 = 1;

/// Length of a frame's header: kind tag and payload length.
pub const HEADER_LEN: usize = 9;

pub const KIND_HELLO: u8 = 1;

pub const KIND_HELLO_ACK: u8 = 2;

pub const KIND_FORWARD: u8 = 3;

pub const KIND_FORWARD_RESULT: u8 = 4;

pub const KIND_TERMINATE: u8 = 5;

pub const KIND_ERROR: u8 = 6;

/// Why a node gave up on a session.
#[derive(Clone, Copy, Debug, PartialEq, Eq)]
pub enum Reason {
    /// The peer's topology digest differs from the local one.
    TopologyMismatch,
    /// A frame was malformed or came out of order.
    Protocol,
    /// The tensor engine failed.
    Compute,
    /// The next hop could not be reached.
    Connection,
    /// The next hop did not answer in time.
    Timeout,
}

impl Reason {
    /// The code that stands for this reason on the wire.
    pub open spec fn code(self) -> u8 {
        match self {
            Reason::TopologyMismatch => 1,
            Reason::Protocol => 2,
            Reason::Compute => 3,
            Reason::Connection => 4,
            Reason::Timeout => 5,
        }
    }

    /// The reason that a code stands for.
    pub open spec fn of_code(code: u8) -> Option<Reason> {
        if code == 1 {
            Some(Reason::TopologyMismatch)
        } else if code == 2 {
            Some(Reason::Protocol)
        } else if code == 3 {
            Some(Reason::Compute)
        } else if code == 4 {
            Some(Reason::Connection)
        } else if code == 5 {
            Some(Reason::Timeout)
        } else {
            None
        }
    }

    /// The code that stands for this reason on the wire.
    pub fn to_code(&self) -> (c: u8)
        ensures
            c == self.code(),
    {
        match self {
            Reason::TopologyMismatch => 1,
            Reason::Protocol => 2,
            Reason::Compute => 3,
            Reason::Connection => 4,
            Reason::Timeout => 5,
        }
    }

    /// The reason that a code stands for, if any.
    pub fn from_code(code: u8) -> (r: Option<Reason>)
        ensures
            r == Reason::of_code(code),
    {
        if code == 1 {
            Some(Reason::TopologyMismatch)
        } else if code == 2 {
            Some(Reason::Protocol)
        } else if code == 3 {
            Some(Reason::Compute)
        } else if code == 4 {
            Some(Reason::Connection)
        } else if code == 5 {
            Some(Reason::Timeout)
        } else {
            None
        }
    }
}

/// What travels over a connection.
#[derive(Debug, PartialEq, Eq)]
pub enum Message {
    /// Opens every connection; carries the sender's topology digest.
    Hello { digest: u64 },
    /// Accepts a `Hello`.
    HelloAck,
    /// Asks for the forward pass of `range` on `tensor`, the activation of the
    /// token at `position`.
    Forward { tensor: TensorPayload, position: u64, range: BlockRange },
    /// The activation after the last block of the chain.
    ForwardResult { tensor: TensorPayload },
    /// Ends the session.
    Terminate,
    /// The sender gave up on the session.
    Error { reason: Reason },
}

/// What a message is, with its tensors as values.
pub enum MessageView {
    Hello { digest: u64 },
    HelloAck,
    Forward { tensor: TensorView, position: u64, range: BlockRange },
    ForwardResult { tensor: TensorView },
    Terminate,
    Error { reason: Reason },
}

impl View for Message {
    type V = MessageView;

    open spec fn view(&self) -> MessageView {
        match *self {
            Message::Hello { digest } => MessageView::Hello { digest },
            Message::HelloAck => MessageView::HelloAck,
            Message::Forward { tensor, position, range } => MessageView::Forward {
                tensor: tensor@,
                position,
                range,
            },
            Message::ForwardResult { tensor } => MessageView::ForwardResult { tensor: tensor@ },
            Message::Terminate => MessageView::Terminate,
            Message::Error { reason } => MessageView::Error { reason },
        }
    }
}

impl Clone for Message {
    fn clone(&self) -> (copy: Self)
        ensures
            copy@ == self@,
    {
        match self {
            Message::Hello { digest } => Message::Hello { digest: *digest },
            Message::HelloAck => Message::HelloAck,
            Message::Forward { tensor, position, range } => Message::Forward {
                tensor: tensor.clone(),
                position: *position,
                range: *range,
            },
            Message::ForwardResult { tensor } => Message::ForwardResult { tensor: tensor.clone() },
            Message::Terminate => Message::Terminate,
            Message::Error { reason } => Message::Error { reason: *reason },
        }
    }
}

impl MessageView {
    /// The tag of the message's kind.
    pub open spec fn kind(self) -> u8 {
        match self {
            MessageView::Hello { .. } => KIND_HELLO,
            MessageView::HelloAck => KIND_HELLO_ACK,
            MessageView::Forward { .. } => KIND_FORWARD,
            MessageView::ForwardResult { .. } => KIND_FORWARD_RESULT,
            MessageView::Terminate => KIND_TERMINATE,
            MessageView::Error { .. } => KIND_ERROR,
        }
    }

    /// The payload: the fields of the message, one after the other.
    pub open spec fn payload(self) -> Seq<u8> {
        match self {
            MessageView::Hello { digest } => seq![PROTOCOL_VERSION] + u64_le(digest),
            MessageView::HelloAck => Seq::empty(),
            MessageView::Forward { tensor, position, range } => u64_le(position) + u64_le(
                range.first,
            ) + u64_le(range.last) + tensor.bytes(),
            MessageView::ForwardResult { tensor } => tensor.bytes(),
            MessageView::Terminate => Seq::empty(),
            MessageView::Error { reason } => seq![reason.code()],
        }
    }

    /// The frame: kind tag, payload length, payload.
    pub open spec fn frame(self) -> Seq<u8> {
        seq![self.kind()] + u64_le(self.payload().len() as u64) + self.payload()
    }

    /// Its tensors are well formed and its payload length fits the header.
    pub open spec fn wf(self) -> bool {
        &&& self.payload().len() <= u64::MAX
        &&& self matches MessageView::Forward { tensor, .. } ==> tensor.wf()
        &&& self matches MessageView::ForwardResult { tensor } ==> tensor.wf()
    }
}

/// Whether `kind` is the tag of a message kind.
pub open spec fn is_kind(kind: u8) -> bool {
    KIND_HELLO <= kind <= KIND_ERROR
}

/// What a payload of the given kind holds.
pub open spec fn parse_payload(kind: u8, p: Seq<u8>) -> Result<MessageView, ProtocolError> {
    if kind == KIND_HELLO {
        if p.len() != 9 {
            Err(ProtocolError::MalformedPayload)
        } else if p[0] != PROTOCOL_VERSION {
            Err(ProtocolError::UnsupportedVersion(p[0]))
        } else {
            Ok(MessageView::Hello { digest: u64_at(p, 1) })
        }
    } else if kind == KIND_HELLO_ACK {
        if p.len() != 0 {
            Err(ProtocolError::MalformedPayload)
        } else {
            Ok(MessageView::HelloAck)
        }
    } else if kind == KIND_FORWARD {
        if p.len() < 24 {
            Err(ProtocolError::MalformedPayload)
        } else {
            match parse_tensor(p.subrange(24, p.len() as int)) {
                Err(e) => Err(e),
                Ok(tensor) => Ok(
                    MessageView::Forward {
                        tensor,
                        position: u64_at(p, 0),
                        range: BlockRange { first: u64_at(p, 8), last: u64_at(p, 16) },
                    },
                ),
            }
        }
    } else if kind == KIND_FORWARD_RESULT {
        match parse_tensor(p) {
            Err(e) => Err(e),
            Ok(tensor) => Ok(MessageView::ForwardResult { tensor }),
        }
    } else if kind == KIND_TERMINATE {
        if p.len() != 0 {
            Err(ProtocolError::MalformedPayload)
        } else {
            Ok(MessageView::Terminate)
        }
    } else if kind == KIND_ERROR {
        if p.len() != 1 {
            Err(ProtocolError::MalformedPayload)
        } else {
            match Reason::of_code(p[0]) {
                None => Err(ProtocolError::UnknownReason(p[0])),
                Some(reason) => Ok(MessageView::Error { reason }),
            }
        }
    } else {
        Err(ProtocolError::UnknownKind(kind))
    }
}

/// The payload length that a header declares.
pub open spec fn parse_header(header: Seq<u8>) -> Result<u64, ProtocolError> {
    if header.len() < 9 {
        Err(ProtocolError::Truncated)
    } else if !is_kind(header[0]) {
        Err(ProtocolError::UnknownKind(header[0]))
    } else {
        Ok(u64_at(header, 1))
    }
}

/// What the bytes `frame` hold as a message, or why they hold none. The
/// declared payload length has to be the number of bytes after the header.
pub open spec fn parse_frame(frame: Seq<u8>) -> Result<MessageView, ProtocolError> {
    match parse_header(frame) {
        Err(e) => Err(e),
        Ok(declared) => {
            if frame.len() - 9 < declared {
                Err(ProtocolError::Truncated)
            } else if frame.len() - 9 > declared {
                Err(ProtocolError::TrailingBytes)
            } else {
                parse_payload(frame[0], frame.subrange(9, frame.len() as int))
            }
        },
    }
}

/// The payload of a well-formed message reads back as the message.
proof fn lemma_payload_roundtrip(m: MessageView)
    requires
        m.wf(),
    ensures
        parse_payload(m.kind(), m.payload()) == Ok::<MessageView, ProtocolError>(m),
{
    let p = m.payload();
    match m {
        MessageView::Hello { digest } => {
            lemma_u64_le_roundtrip(digest, Seq::empty());
            assert(p.subrange(1, 9) =~= u64_le(digest) + Seq::<u8>::empty());
        },
        MessageView::Forward { tensor, position, range } => {
            let rest = tensor.bytes();
            lemma_u64_le_roundtrip(position, Seq::empty());
            lemma_u64_le_roundtrip(range.first, Seq::empty());
            lemma_u64_le_roundtrip(range.last, Seq::empty());
            assert(p.subrange(0, 8) =~= u64_le(position) + Seq::<u8>::empty());
            assert(p.subrange(8, 16) =~= u64_le(range.first) + Seq::<u8>::empty());
            assert(p.subrange(16, 24) =~= u64_le(range.last) + Seq::<u8>::empty());
            assert(p.subrange(24, p.len() as int) =~= rest);
            lemma_tensor_roundtrip(tensor);
        },
        MessageView::ForwardResult { tensor } => {
            lemma_tensor_roundtrip(tensor);
        },
        _ => {},
    }
}

/// A payload that holds a message of the given kind is the payload of that
/// message.
proof fn lemma_payload_canonical(kind: u8, p: Seq<u8>)
    requires
        parse_payload(kind, p) is Ok,
        p.len() <= u64::MAX,
    ensures
        parse_payload(kind, p)->Ok_0.kind() == kind,
        parse_payload(kind, p)->Ok_0.payload() == p,
        parse_payload(kind, p)->Ok_0.wf(),
{
    let m = parse_payload(kind, p)->Ok_0;
    if kind == KIND_HELLO {
        lemma_u64_le_canonical(p.subrange(1, 9));
        assert(p.subrange(1, 9).subrange(0, 8) =~= p.subrange(1, 9));
        assert(m.payload() =~= p);
    } else if kind == KIND_FORWARD {
        lemma_u64_le_canonical(p.subrange(0, 8));
        lemma_u64_le_canonical(p.subrange(8, 16));
        lemma_u64_le_canonical(p.subrange(16, 24));
        assert(p.subrange(0, 8).subrange(0, 8) =~= p.subrange(0, 8));
        assert(p.subrange(8, 16).subrange(0, 8) =~= p.subrange(8, 16));
        assert(p.subrange(16, 24).subrange(0, 8) =~= p.subrange(16, 24));
        lemma_tensor_canonical(p.subrange(24, p.len() as int));
        assert(m.payload() =~= p);
    } else if kind == KIND_FORWARD_RESULT {
        lemma_tensor_canonical(p);
    } else if kind == KIND_ERROR {
        assert(m.payload() =~= p);
    } else {
        assert(m.payload() =~= p);
    }
}

/// A well-formed message is read back from its frame unchanged.
pub proof fn lemma_frame_roundtrip(m: MessageView)
    requires
        m.wf(),
    ensures
        parse_frame(m.frame()) == Ok::<MessageView, ProtocolError>(m),
{
    let f = m.frame();
    let p = m.payload();
    lemma_u64_le_roundtrip(p.len() as u64, p);
    lemma_u64_le_roundtrip(p.len() as u64, Seq::empty());
    assert(f.subrange(1, 9) =~= u64_le(p.len() as u64) + Seq::<u8>::empty());
    assert(f.subrange(9, f.len() as int) =~= p);
    lemma_payload_roundtrip(m);
}

/// Bytes that hold a message are the frame of that message, and of no other.
pub proof fn lemma_frame_canonical(frame: Seq<u8>)
    requires
        parse_frame(frame) is Ok,
    ensures
        parse_frame(frame)->Ok_0.wf(),
        parse_frame(frame)->Ok_0.frame() == frame,
{
    let p = frame.subrange(9, frame.len() as int);
    lemma_payload_canonical(frame[0], p);
    lemma_u64_le_canonical(frame.subrange(1, 9));
    assert(frame.subrange(1, 9).subrange(0, 8) =~= frame.subrange(1, 9));
    assert(parse_frame(frame)->Ok_0.frame() =~= frame);
}

/// A frame cut short is refused as truncated, wherever the cut falls.
pub proof fn lemma_truncated_frame_refused(m: MessageView, n: int)
    requires
        m.wf(),
        0 <= n < m.frame().len(),
    ensures
        parse_frame(m.frame().take(n)) == Err::<MessageView, ProtocolError>(
            ProtocolError::Truncated,
        ),
{
    let f = m.frame();
    let p = m.payload();
    let cut = f.take(n);
    if n >= 9 {
        lemma_u64_le_roundtrip(p.len() as u64, Seq::empty());
        assert(cut.subrange(1, 9) =~= u64_le(p.len() as u64) + Seq::<u8>::empty());
        assert(cut[0] == m.kind());
    }
}

impl Message {
    /// The tag of the message's kind.
    pub fn kind(&self) -> (k: u8)
        ensures
            k == self@.kind(),
            is_kind(k),
    {
        match self {
            Message::Hello { .. } => KIND_HELLO,
            Message::HelloAck => KIND_HELLO_ACK,
            Message::Forward { .. } => KIND_FORWARD,
            Message::ForwardResult { .. } => KIND_FORWARD_RESULT,
            Message::Terminate => KIND_TERMINATE,
            Message::Error { .. } => KIND_ERROR,
        }
    }

    /// The payload of the message.
    fn payload(&self) -> (p: Vec<u8>)
        ensures
            p@ == self@.payload(),
            self@.wf(),
    {
        let mut p: Vec<u8> = Vec::new();
        match self {
            Message::Hello { digest } => {
                p.push(PROTOCOL_VERSION);
                put_u64(&mut p, *digest);
            },
            Message::Forward { tensor, position, range } => {
                put_u64(&mut p, *position);
                put_u64(&mut p, range.first);
                put_u64(&mut p, range.last);
                tensor.write(&mut p);
                let _ = tensor.dtype();
            },
            Message::ForwardResult { tensor } => {
                tensor.write(&mut p);
                let _ = tensor.dtype();
            },
            Message::Error { reason } => {
                p.push(reason.to_code());
            },
            Message::HelloAck => {},
            Message::Terminate => {},
        }
        let _ = p.len();
        assert(p@ =~= self@.payload());
        p
    }

    /// The frame of the message.
    pub fn encode(&self) -> (frame: Vec<u8>)
        ensures
            frame@ == self@.frame(),
            self@.wf(),
            parse_frame(frame@) == Ok::<MessageView, ProtocolError>(self@),
    {
        let payload = self.payload();
        let mut frame: Vec<u8> = Vec::new();
        frame.push(self.kind());
        put_u64(&mut frame, payload.len() as u64);
        frame.extend_from_slice(payload.as_slice());
        proof {
            assert(frame@ =~= self@.frame());
            lemma_frame_roundtrip(self@);
        }
        frame
    }

    /// Reads the payload of a message of the given kind.
    fn decode_payload(kind: u8, p: &[u8]) -> (r: Result<Message, ProtocolError>)
        ensures
            match r {
                Ok(m) => parse_payload(kind, p@) == Ok::<MessageView, ProtocolError>(m@),
                Err(e) => parse_payload(kind, p@) == Err::<MessageView, ProtocolError>(e),
            },
    {
        let len = p.len();
        if kind == KIND_HELLO {
            if len != 9 {
                Err(ProtocolError::MalformedPayload)
            } else if p[0] != PROTOCOL_VERSION {
                Err(ProtocolError::UnsupportedVersion(p[0]))
            } else {
                Ok(Message::Hello { digest: get_u64(p, 1) })
            }
        } else if kind == KIND_HELLO_ACK {
            if len != 0 {
                Err(ProtocolError::MalformedPayload)
            } else {
                Ok(Message::HelloAck)
            }
        } else if kind == KIND_FORWARD {
            if len < 24 {
                Err(ProtocolError::MalformedPayload)
            } else {
                match TensorPayload::read(slice_subrange(p, 24, len)) {
                    Err(e) => Err(e),
                    Ok(tensor) => Ok(
                        Message::Forward {
                            tensor,
                            position: get_u64(p, 0),
                            range: BlockRange { first: get_u64(p, 8), last: get_u64(p, 16) },
                        },
                    ),
                }
            }
        } else if kind == KIND_FORWARD_RESULT {
            match TensorPayload::read(p) {
                Err(e) => Err(e),
                Ok(tensor) => Ok(Message::ForwardResult { tensor }),
            }
        } else if kind == KIND_TERMINATE {
            if len != 0 {
                Err(ProtocolError::MalformedPayload)
            } else {
                Ok(Message::Terminate)
            }
        } else if kind == KIND_ERROR {
            if len != 1 {
                Err(ProtocolError::MalformedPayload)
            } else {
                match Reason::from_code(p[0]) {
                    None => Err(ProtocolError::UnknownReason(p[0])),
                    Some(reason) => Ok(Message::Error { reason }),
                }
            }
        } else {
            Err(ProtocolError::UnknownKind(kind))
        }
    }

    /// Reads the message that the bytes `frame` hold, all of them. Succeeds
    /// exactly on the frames that `encode` produces.
    pub fn decode(frame: &[u8]) -> (r: Result<Message, ProtocolError>)
        ensures
            match r {
                Ok(m) => parse_frame(frame@) == Ok::<MessageView, ProtocolError>(m@) && m@.wf()
                    && m@.frame() == frame@,
                Err(e) => parse_frame(frame@) == Err::<MessageView, ProtocolError>(e),
            },
    {
        let len = frame.len();
        let declared = match payload_len(frame) {
            Ok(n) => n,
            Err(e) => {
                return Err(e);
            },
        };
        let have = (len - HEADER_LEN) as u64;
        if have < declared {
            return Err(ProtocolError::Truncated);
        }
        if have > declared {
            return Err(ProtocolError::TrailingBytes);
        }
        let r = Message::decode_payload(frame[0], slice_subrange(frame, HEADER_LEN, len));
        proof {
            if r is Ok {
                lemma_frame_canonical(frame@);
            }
        }
        r
    }
}

/// The payload length that a frame's header declares: what is still to be
/// read once the header is in.
pub fn payload_len(header: &[u8]) -> (r: Result<u64, ProtocolError>)
    ensures
        r == parse_header(header@),
{
    if header.len() < HEADER_LEN {
        Err(ProtocolError::Truncated)
    } else if !(KIND_HELLO <= header[0] && header[0] <= KIND_ERROR) {
        Err(ProtocolError::UnknownKind(header[0]))
    } else {
        Ok(get_u64(header, 1))
    }
}

} // verus!
