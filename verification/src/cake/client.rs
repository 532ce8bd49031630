//! The requesting end of a connection: one request at a time, answered by
//! exactly one response, with one fresh connection tried after a network
//! failure.
//!
//! The client decides; whoever owns the socket acts. Every event of the
//! socket goes into `Client::step`, which answers with the next thing to do.

use vstd::prelude::*;
use crate::cake::proto::{parse_frame, Message, MessageView, ProtocolError, Reason};

verus! {

/// Why a request failed.
#[derive(Clone, Copy, Debug, PartialEq, Eq)]
pub enum ClientError {
    /// The socket failed, also on the second connection.
    Connection,
    /// No response came within the deadline, also on the second connection.
    Timeout,
    /// The peer sent a malformed or misplaced frame. The session is corrupt.
    Protocol(ProtocolError),
    /// The peer runs another topology.
    TopologyMismatch,
    /// The event does not belong to what the client is doing.
    OutOfTurn,
}

/// What the client is waiting for.
#[derive(Clone, Copy, Debug, PartialEq, Eq)]
pub enum Phase {
    /// Nothing: the next request may come.
    Idle,
    /// The connection to be established.
    Connecting,
    /// The `Hello` to be written.
    Greeting,
    /// The peer's answer to the `Hello`.
    AwaitingAck,
    /// The request to be written.
    Sending,
    /// The response.
    Receiving,
}

/// What happened on the socket, or what the caller wants.
#[derive(Debug, PartialEq, Eq)]
pub enum ClientEvent {
    /// The caller wants the connection established and greeted.
    Open,
    /// The caller wants this message sent and, unless it is `Terminate`,
    /// answered.
    Request(Message),
    /// The connection stands.
    Connected,
    /// The bytes handed out last are written.
    Sent,
    /// A frame came in.
    Frame(Vec<u8>),
    /// Connecting, writing or reading failed.
    SocketError,
    /// The deadline passed.
    TimedOut,
}

/// What to do next on the socket, or what to tell the caller.
#[derive(Debug, PartialEq, Eq)]
pub enum ClientAction {
    /// Drop the connection, if there is one, and establish a fresh one.
    Connect,
    /// Write these bytes.
    Send(Vec<u8>),
    /// Read one frame, within the deadline.
    Receive,
    /// The request is answered by this message.
    Deliver(Message),
    /// The request is done and has no answer.
    Done,
    /// The request failed. Unless the error is `OutOfTurn`, the connection is
    /// to be dropped.
    Fail(ClientError),
}

pub enum ClientEventView {
    Open,
    Request(MessageView),
    Connected,
    Sent,
    Frame(Seq<u8>),
    SocketError,
    TimedOut,
}

pub enum ClientActionView {
    Connect,
    Send(Seq<u8>),
    Receive,
    Deliver(MessageView),
    Done,
    Fail(ClientError),
}

impl View for ClientEvent {
    type V = ClientEventView;

    open spec fn view(&self) -> ClientEventView {
        match *self {
            ClientEvent::Open => ClientEventView::Open,
            ClientEvent::Request(m) => ClientEventView::Request(m@),
            ClientEvent::Connected => ClientEventView::Connected,
            ClientEvent::Sent => ClientEventView::Sent,
            ClientEvent::Frame(b) => ClientEventView::Frame(b@),
            ClientEvent::SocketError => ClientEventView::SocketError,
            ClientEvent::TimedOut => ClientEventView::TimedOut,
        }
    }
}

impl View for ClientAction {
    type V = ClientActionView;

    open spec fn view(&self) -> ClientActionView {
        match *self {
            ClientAction::Connect => ClientActionView::Connect,
            ClientAction::Send(b) => ClientActionView::Send(b@),
            ClientAction::Receive => ClientActionView::Receive,
            ClientAction::Deliver(m) => ClientActionView::Deliver(m@),
            ClientAction::Done => ClientActionView::Done,
            ClientAction::Fail(e) => ClientActionView::Fail(e),
        }
    }
}

/// What a client is.
pub struct ClientView {
    /// The local topology digest, sent in every `Hello`.
    pub digest: u64,
    /// Whether a greeted connection stands.
    pub connected: bool,
    pub phase: Phase,
    /// Whether the request in flight has used up its fresh connection.
    pub retried: bool,
    /// The frame of the request in flight, if it carries a message.
    pub request: Option<Seq<u8>>,
    /// Whether the request in flight is answered by a message.
    pub expects_reply: bool,
}

/// The frame of the `Hello` that carries `digest`.
pub open spec fn hello_frame(digest: u64) -> Seq<u8> {
    (MessageView::Hello { digest }).frame()
}

impl ClientView {
    /// The client at rest, with or without a connection.
    pub open spec fn at_rest(self, connected: bool) -> ClientView {
        ClientView {
            digest: self.digest,
            connected,
            phase: Phase::Idle,
            retried: false,
            request: None,
            expects_reply: false,
        }
    }

    /// After a network failure: the first one of a request is answered with
    /// a fresh connection, the second one ends the request with `cause`.
    pub open spec fn after_failure(self, cause: ClientError) -> (ClientView, ClientActionView) {
        if self.retried {
            (self.at_rest(false), ClientActionView::Fail(cause))
        } else {
            (
                ClientView { connected: false, phase: Phase::Connecting, retried: true, ..self },
                ClientActionView::Connect,
            )
        }
    }

    /// After a frame that ends the request without a message.
    pub open spec fn after_refusal(self, cause: ClientError) -> (ClientView, ClientActionView) {
        (self.at_rest(false), ClientActionView::Fail(cause))
    }

    /// The client after `event`, and what is to be done next.
    pub open spec fn step(self, event: ClientEventView) -> (ClientView, ClientActionView) {
        match (self.phase, event) {
            (Phase::Idle, ClientEventView::Open) => {
                if self.connected {
                    (self, ClientActionView::Done)
                } else {
                    (ClientView { phase: Phase::Connecting, ..self }, ClientActionView::Connect)
                }
            },
            (Phase::Idle, ClientEventView::Request(m)) => {
                let taken = ClientView {
                    request: Some(m.frame()),
                    expects_reply: !(m is Terminate),
                    ..self
                };
                if self.connected {
                    (
                        ClientView { phase: Phase::Sending, ..taken },
                        ClientActionView::Send(m.frame()),
                    )
                } else {
                    (ClientView { phase: Phase::Connecting, ..taken }, ClientActionView::Connect)
                }
            },
            (Phase::Connecting, ClientEventView::Connected) => (
                ClientView { connected: true, phase: Phase::Greeting, ..self },
                ClientActionView::Send(hello_frame(self.digest)),
            ),
            (Phase::Greeting, ClientEventView::Sent) => (
                ClientView { phase: Phase::AwaitingAck, ..self },
                ClientActionView::Receive,
            ),
            (Phase::AwaitingAck, ClientEventView::Frame(bytes)) => match parse_frame(bytes) {
                Ok(MessageView::HelloAck) => match self.request {
                    Some(frame) => (
                        ClientView { phase: Phase::Sending, ..self },
                        ClientActionView::Send(frame),
                    ),
                    None => (self.at_rest(true), ClientActionView::Done),
                },
                Ok(MessageView::Error { reason: Reason::TopologyMismatch }) => self.after_refusal(
                    ClientError::TopologyMismatch,
                ),
                Ok(_) => self.after_refusal(
                    ClientError::Protocol(ProtocolError::UnexpectedMessage),
                ),
                Err(e) => self.after_refusal(ClientError::Protocol(e)),
            },
            (Phase::Sending, ClientEventView::Sent) => {
                if self.expects_reply {
                    (ClientView { phase: Phase::Receiving, ..self }, ClientActionView::Receive)
                } else {
                    (self.at_rest(true), ClientActionView::Done)
                }
            },
            (Phase::Receiving, ClientEventView::Frame(bytes)) => match parse_frame(bytes) {
                Ok(m) => (self.at_rest(true), ClientActionView::Deliver(m)),
                Err(e) => self.after_refusal(ClientError::Protocol(e)),
            },
            (Phase::Idle, _) => (self, ClientActionView::Fail(ClientError::OutOfTurn)),
            (_, ClientEventView::SocketError) => self.after_failure(ClientError::Connection),
            (_, ClientEventView::TimedOut) => self.after_failure(ClientError::Timeout),
            (_, _) => (self, ClientActionView::Fail(ClientError::OutOfTurn)),
        }
    }
}

/// A network failure is answered with a fresh connection once for each
/// request: the second failure ends the request with its cause and leaves the
/// client at rest without a connection.
pub proof fn lemma_one_retry(c: ClientView, timeout: bool)
    requires
        c.phase != Phase::Idle,
    ensures
        ({
            let event = if timeout {
                ClientEventView::TimedOut
            } else {
                ClientEventView::SocketError
            };
            let cause = if timeout {
                ClientError::Timeout
            } else {
                ClientError::Connection
            };
            let first = c.step(event);
            let second = first.0.step(event);
            &&& !c.retried ==> first.1 is Connect && first.0.retried && first.0.request == c.request
            &&& !c.retried ==> second.1 == ClientActionView::Fail(cause)
            &&& c.retried ==> first.1 == ClientActionView::Fail(cause)
            &&& second.0.phase == Phase::Idle && !second.0.connected
        }),
{
}

/// A frame that does not parse ends the request at once, whether or not the
/// fresh connection has been used: the session is not to be trusted.
pub proof fn lemma_no_retry_on_malformed_frame(c: ClientView, frame: Seq<u8>)
    requires
        c.phase == Phase::Receiving || c.phase == Phase::AwaitingAck,
        parse_frame(frame) is Err,
    ensures
        c.step(ClientEventView::Frame(frame)).1 == ClientActionView::Fail(
            ClientError::Protocol(parse_frame(frame)->Err_0),
        ),
        c.step(ClientEventView::Frame(frame)).0 == c.at_rest(false),
{
}

/// The requesting end of one connection.
#[derive(Debug)]
pub struct Client {
    digest: u64,
    connected: bool,
    phase: Phase,
    retried: bool,
    request: Option<Vec<u8>>,
    expects_reply: bool,
}

impl View for Client {
    type V = ClientView;

    closed spec fn view(&self) -> ClientView {
        ClientView {
            digest: self.digest,
            connected: self.connected,
            phase: self.phase,
            retried: self.retried,
            request: match self.request {
                Some(frame) => Some(frame@),
                None => None,
            },
            expects_reply: self.expects_reply,
        }
    }
}

impl Client {
    /// A client without a connection that greets with `digest`.
    pub fn new(digest: u64) -> (client: Client)
        ensures
            client@ == (ClientView {
                digest,
                connected: false,
                phase: Phase::Idle,
                retried: false,
                request: None,
                expects_reply: false,
            }),
    {
        Client {
            digest,
            connected: false,
            phase: Phase::Idle,
            retried: false,
            request: None,
            expects_reply: false,
        }
    }

    /// What the client is waiting for.
    pub fn phase(&self) -> (p: Phase)
        ensures
            p == self@.phase,
    {
        self.phase
    }

    /// Whether a greeted connection stands.
    pub fn is_connected(&self) -> (b: bool)
        ensures
            b == self@.connected,
    {
        self.connected
    }

    /// Comes to rest, with or without a connection.
    fn rest(&mut self, connected: bool)
        ensures
            final(self)@ == old(self)@.at_rest(connected),
    {
        self.connected = connected;
        self.phase = Phase::Idle;
        self.retried = false;
        self.request = None;
        self.expects_reply = false;
    }

    /// Answers a network failure: a fresh connection the first time, the
    /// end of the request the second.
    fn fail(&mut self, cause: ClientError) -> (action: ClientAction)
        ensures
            (final(self)@, action@) == old(self)@.after_failure(cause),
    {
        if self.retried {
            self.rest(false);
            ClientAction::Fail(cause)
        } else {
            self.connected = false;
            self.phase = Phase::Connecting;
            self.retried = true;
            ClientAction::Connect
        }
    }

    /// Ends the request after a frame that cannot be its answer.
    fn refuse(&mut self, cause: ClientError) -> (action: ClientAction)
        ensures
            (final(self)@, action@) == old(self)@.after_refusal(cause),
    {
        self.rest(false);
        ClientAction::Fail(cause)
    }

    /// Takes in `event` and says what is to be done next.
    pub fn step(&mut self, event: ClientEvent) -> (action: ClientAction)
        ensures
            (final(self)@, action@) == old(self)@.step(event@),
    {
        match (self.phase, event) {
            (Phase::Idle, ClientEvent::Open) => {
                if self.connected {
                    ClientAction::Done
                } else {
                    self.phase = Phase::Connecting;
                    ClientAction::Connect
                }
            },
            (Phase::Idle, ClientEvent::Request(m)) => {
                let frame = m.encode();
                let copy = frame.clone();
                assert(copy@ =~= frame@);
                self.expects_reply = match m {
                    Message::Terminate => false,
                    _ => true,
                };
                self.request = Some(frame);
                if self.connected {
                    self.phase = Phase::Sending;
                    ClientAction::Send(copy)
                } else {
                    self.phase = Phase::Connecting;
                    ClientAction::Connect
                }
            },
            (Phase::Connecting, ClientEvent::Connected) => {
                self.connected = true;
                self.phase = Phase::Greeting;
                ClientAction::Send((Message::Hello { digest: self.digest }).encode())
            },
            (Phase::Greeting, ClientEvent::Sent) => {
                self.phase = Phase::AwaitingAck;
                ClientAction::Receive
            },
            (Phase::AwaitingAck, ClientEvent::Frame(bytes)) => {
                match Message::decode(bytes.as_slice()) {
                    Ok(Message::HelloAck) => match &self.request {
                        Some(frame) => {
                            let copy = frame.clone();
                            assert(copy@ =~= frame@);
                            self.phase = Phase::Sending;
                            ClientAction::Send(copy)
                        },
                        None => {
                            self.rest(true);
                            ClientAction::Done
                        },
                    },
                    Ok(Message::Error { reason: Reason::TopologyMismatch }) => self.refuse(
                        ClientError::TopologyMismatch,
                    ),
                    Ok(_) => self.refuse(ClientError::Protocol(ProtocolError::UnexpectedMessage)),
                    Err(e) => self.refuse(ClientError::Protocol(e)),
                }
            },
            (Phase::Sending, ClientEvent::Sent) => {
                if self.expects_reply {
                    self.phase = Phase::Receiving;
                    ClientAction::Receive
                } else {
                    self.rest(true);
                    ClientAction::Done
                }
            },
            (Phase::Receiving, ClientEvent::Frame(bytes)) => {
                match Message::decode(bytes.as_slice()) {
                    Ok(m) => {
                        self.rest(true);
                        ClientAction::Deliver(m)
                    },
                    Err(e) => self.refuse(ClientError::Protocol(e)),
                }
            },
            (Phase::Idle, _) => ClientAction::Fail(ClientError::OutOfTurn),
            (_, ClientEvent::SocketError) => self.fail(ClientError::Connection),
            (_, ClientEvent::TimedOut) => self.fail(ClientError::Timeout),
            (_, _) => ClientAction::Fail(ClientError::OutOfTurn),
        }
    }
}

} // verus!
