//! A worker node: it accepts one connection, checks the peer's topology
//! digest, and then runs the forward pass of its own blocks for every request,
//! handing the result on to the next node of the chain or back to the peer.
//!
//! The worker decides; whoever owns the sockets and the tensor engine acts.
//! Every event goes into `Worker::step`, which answers with the next thing to
//! do.

use vstd::prelude::*;
use crate::cake::cache::{Cache, CacheView};
use crate::cake::client::ClientError;
use crate::cake::proto::{
    lemma_frame_roundtrip, parse_frame, Message, MessageView, ProtocolError, Reason,
};
use crate::cake::tensor::{TensorPayload, TensorView};
use crate::cake::topology::{BlockRange, Topology, TopologyView};

verus! {

/// Where a worker stands.
#[derive(Clone, Copy, Debug, PartialEq, Eq)]
pub enum WorkerState {
    /// Waiting for a connection.
    Listening,
    /// Waiting for the peer's `Hello`.
    Handshaking,
    /// Serving the peer's requests.
    Serving,
    /// The session ended with `Terminate`; the connection is being closed.
    Terminated,
    /// The session broke; the connection is being closed.
    Faulted,
}

/// What a serving worker waits for.
#[derive(Clone, Copy, Debug, PartialEq, Eq)]
pub enum ServingStep {
    /// The next request.
    Request,
    /// The forward pass of its own blocks.
    Compute,
    /// The answer of the next node.
    NextHop,
}

/// What happened.
#[derive(Debug)]
pub enum WorkerEvent<T> {
    /// A peer connected.
    Accepted,
    /// A frame came in from the peer.
    Frame(Vec<u8>),
    /// The peer's connection broke or was closed.
    Disconnected,
    /// The forward pass is done: `output` is the activation after the last
    /// own block, `entries` the cache entries it left, one for each block.
    Computed { output: TensorPayload, entries: Vec<T> },
    /// The tensor engine failed.
    ComputeFailed,
    /// The next node answered.
    HopReplied(Message),
    /// The request to the next node failed.
    HopFailed(ClientError),
    /// The connections are closed.
    Released,
}

/// What to do next.
#[derive(Debug, PartialEq, Eq)]
pub enum WorkerAction {
    /// Wait for a peer to connect.
    Accept,
    /// Read the next frame from the peer.
    Receive,
    /// Write this message to the peer, then read the next frame.
    Reply(Message),
    /// Run the forward pass of the own blocks on `tensor`, the activation of
    /// the token at `position`.
    Compute { tensor: TensorPayload, position: u64 },
    /// Send this request to the next node and wait for its answer.
    Relay(Message),
    /// Write `reply` to the peer and `forward` to the next node, as far as
    /// there is one, then close both connections.
    Close { reply: Option<Message>, forward: Option<Message> },
}

pub enum WorkerEventView<T> {
    Accepted,
    Frame(Seq<u8>),
    Disconnected,
    Computed { output: TensorView, entries: Seq<T> },
    ComputeFailed,
    HopReplied(MessageView),
    HopFailed(ClientError),
    Released,
}

pub enum WorkerActionView {
    Accept,
    Receive,
    Reply(MessageView),
    Compute { tensor: TensorView, position: u64 },
    Relay(MessageView),
    Close { reply: Option<MessageView>, forward: Option<MessageView> },
}

impl<T> View for WorkerEvent<T> {
    type V = WorkerEventView<T>;

    open spec fn view(&self) -> WorkerEventView<T> {
        match *self {
            WorkerEvent::Accepted => WorkerEventView::Accepted,
            WorkerEvent::Frame(b) => WorkerEventView::Frame(b@),
            WorkerEvent::Disconnected => WorkerEventView::Disconnected,
            WorkerEvent::Computed { output, entries } => WorkerEventView::Computed {
                output: output@,
                entries: entries@,
            },
            WorkerEvent::ComputeFailed => WorkerEventView::ComputeFailed,
            WorkerEvent::HopReplied(m) => WorkerEventView::HopReplied(m@),
            WorkerEvent::HopFailed(e) => WorkerEventView::HopFailed(e),
            WorkerEvent::Released => WorkerEventView::Released,
        }
    }
}

/// The view of a message that may be missing.
pub open spec fn view_of(m: Option<Message>) -> Option<MessageView> {
    match m {
        Some(m) => Some(m@),
        None => None,
    }
}

impl View for WorkerAction {
    type V = WorkerActionView;

    open spec fn view(&self) -> WorkerActionView {
        match *self {
            WorkerAction::Accept => WorkerActionView::Accept,
            WorkerAction::Receive => WorkerActionView::Receive,
            WorkerAction::Reply(m) => WorkerActionView::Reply(m@),
            WorkerAction::Compute { tensor, position } => WorkerActionView::Compute {
                tensor: tensor@,
                position,
            },
            WorkerAction::Relay(m) => WorkerActionView::Relay(m@),
            WorkerAction::Close { reply, forward } => WorkerActionView::Close {
                reply: view_of(reply),
                forward: view_of(forward),
            },
        }
    }
}

/// The reason a worker gives upstream when its request to the next node
/// failed.
pub open spec fn reason_of(e: ClientError) -> Reason {
    match e {
        ClientError::Connection => Reason::Connection,
        ClientError::Timeout => Reason::Timeout,
        ClientError::TopologyMismatch => Reason::TopologyMismatch,
        ClientError::Protocol(_) => Reason::Protocol,
        ClientError::OutOfTurn => Reason::Protocol,
    }
}

/// What a worker is.
pub struct WorkerView<T> {
    pub state: WorkerState,
    /// What the worker waits for while it serves.
    pub step: ServingStep,
    /// The local topology digest.
    pub digest: u64,
    /// The blocks the worker owns.
    pub range: BlockRange,
    /// The blocks of the next node, unless the worker is the last of the chain.
    pub next: Option<BlockRange>,
    pub cache: CacheView<T>,
}

impl<T> WorkerView<T> {
    /// The cache is that of the worker's own blocks.
    pub open spec fn wf(self) -> bool {
        self.cache.wf() && self.cache.range == self.range
    }

    /// The session breaks: the cache is dropped and the connection closed,
    /// after `reply` has told the peer why, where it is still listening.
    pub open spec fn fault(self, reply: Option<MessageView>) -> (WorkerView<T>, WorkerActionView) {
        (
            WorkerView {
                state: WorkerState::Faulted,
                step: ServingStep::Request,
                cache: self.cache.cleared(),
                ..self
            },
            WorkerActionView::Close { reply, forward: None },
        )
    }

    /// The peer's first frame: only a `Hello` with the local digest opens the
    /// session.
    pub open spec fn greet(self, frame: Seq<u8>) -> (WorkerView<T>, WorkerActionView) {
        match parse_frame(frame) {
            Ok(MessageView::Hello { digest }) => {
                if digest == self.digest {
                    (
                        WorkerView {
                            state: WorkerState::Serving,
                            step: ServingStep::Request,
                            cache: self.cache.cleared(),
                            ..self
                        },
                        WorkerActionView::Reply(MessageView::HelloAck),
                    )
                } else {
                    self.fault(Some(MessageView::Error { reason: Reason::TopologyMismatch }))
                }
            },
            Ok(_) => self.fault(Some(MessageView::Error { reason: Reason::Protocol })),
            Err(_) => self.fault(None),
        }
    }

    /// A frame while the worker waits for a request: a `Forward` for the own
    /// blocks at the cache's position starts a forward pass, `Terminate` ends
    /// the session.
    pub open spec fn serve(self, frame: Seq<u8>) -> (WorkerView<T>, WorkerActionView) {
        match parse_frame(frame) {
            Ok(MessageView::Forward { tensor, position, range }) => {
                if range == self.range && position == self.cache.position {
                    (
                        WorkerView { step: ServingStep::Compute, ..self },
                        WorkerActionView::Compute { tensor, position },
                    )
                } else {
                    self.fault(Some(MessageView::Error { reason: Reason::Protocol }))
                }
            },
            Ok(MessageView::Terminate) => (
                WorkerView {
                    state: WorkerState::Terminated,
                    step: ServingStep::Request,
                    cache: self.cache.cleared(),
                    ..self
                },
                WorkerActionView::Close {
                    reply: None,
                    forward: if self.next is Some {
                        Some(MessageView::Terminate)
                    } else {
                        None
                    },
                },
            ),
            Ok(_) => self.fault(Some(MessageView::Error { reason: Reason::Protocol })),
            Err(_) => self.fault(None),
        }
    }

    /// The forward pass is done: the cache takes the entries in, and the
    /// activation goes to the next node, or back to the peer from the last
    /// node of the chain.
    pub open spec fn computed(self, output: TensorView, entries: Seq<T>) -> (
        WorkerView<T>,
        WorkerActionView,
    ) {
        if self.cache.accepts(entries) {
            let cache = self.cache.advanced(entries);
            match self.next {
                Some(range) => (
                    WorkerView { step: ServingStep::NextHop, cache, ..self },
                    WorkerActionView::Relay(
                        MessageView::Forward {
                            tensor: output,
                            position: self.cache.position,
                            range,
                        },
                    ),
                ),
                None => (
                    WorkerView { step: ServingStep::Request, cache, ..self },
                    WorkerActionView::Reply(MessageView::ForwardResult { tensor: output }),
                ),
            }
        } else {
            self.fault(Some(MessageView::Error { reason: Reason::Compute }))
        }
    }

    /// The next node answered: its result goes back to the peer unchanged.
    pub open spec fn relayed(self, answer: MessageView) -> (WorkerView<T>, WorkerActionView) {
        match answer {
            MessageView::ForwardResult { tensor } => (
                WorkerView { step: ServingStep::Request, ..self },
                WorkerActionView::Reply(MessageView::ForwardResult { tensor }),
            ),
            MessageView::Error { reason } => self.fault(Some(MessageView::Error { reason })),
            _ => self.fault(Some(MessageView::Error { reason: Reason::Protocol })),
        }
    }

    /// The worker after `event`, and what is to be done next.
    pub open spec fn step(self, event: WorkerEventView<T>) -> (WorkerView<T>, WorkerActionView) {
        match self.state {
            WorkerState::Listening => match event {
                WorkerEventView::Accepted => (
                    WorkerView { state: WorkerState::Handshaking, ..self },
                    WorkerActionView::Receive,
                ),
                _ => (self, WorkerActionView::Accept),
            },
            WorkerState::Handshaking => match event {
                WorkerEventView::Frame(frame) => self.greet(frame),
                _ => self.fault(None),
            },
            WorkerState::Serving => match (self.step, event) {
                (ServingStep::Request, WorkerEventView::Frame(frame)) => self.serve(frame),
                (ServingStep::Compute, WorkerEventView::Computed { output, entries }) => self.computed(
                    output,
                    entries,
                ),
                (ServingStep::Compute, WorkerEventView::ComputeFailed) => self.fault(
                    Some(MessageView::Error { reason: Reason::Compute }),
                ),
                (ServingStep::NextHop, WorkerEventView::HopReplied(answer)) => self.relayed(answer),
                (ServingStep::NextHop, WorkerEventView::HopFailed(e)) => self.fault(
                    Some(MessageView::Error { reason: reason_of(e) }),
                ),
                (_, _) => self.fault(None),
            },
            WorkerState::Terminated | WorkerState::Faulted => match event {
                WorkerEventView::Released => (
                    WorkerView { state: WorkerState::Listening, ..self },
                    WorkerActionView::Accept,
                ),
                _ => (self, WorkerActionView::Close { reply: None, forward: None }),
            },
        }
    }
}

/// What happens around a worker while it serves one token: the request
/// frame that comes in, what the forward pass leaves, and the next node's
/// result where there is a next node.
pub struct TokenRound<T> {
    pub frame: Seq<u8>,
    pub output: TensorView,
    pub entries: Seq<T>,
    pub answer: TensorView,
}

impl<T> WorkerView<T> {
    /// The worker after it has served one token.
    pub open spec fn after_round(self, round: TokenRound<T>) -> WorkerView<T> {
        let asked = self.step(WorkerEventView::Frame(round.frame)).0;
        let done = asked.step(
            WorkerEventView::Computed { output: round.output, entries: round.entries },
        ).0;
        if self.next is Some {
            done.step(
                WorkerEventView::HopReplied(MessageView::ForwardResult { tensor: round.answer }),
            ).0
        } else {
            done
        }
    }

    /// The worker after it has served the tokens of `rounds`, one after the
    /// other.
    pub open spec fn after_rounds(self, rounds: Seq<TokenRound<T>>) -> WorkerView<T>
        decreases rounds.len(),
    {
        if rounds.len() == 0 {
            self
        } else {
            self.after_rounds(rounds.drop_last()).after_round(rounds.last())
        }
    }

    /// `round` is the service of the token at `position`: a request for the
    /// worker's own blocks at that position, and one cache entry for each of
    /// them.
    pub open spec fn is_round_at(self, round: TokenRound<T>, position: int) -> bool {
        &&& parse_frame(round.frame) matches Ok(MessageView::Forward { position: p, range, .. })
        &&& p == position
        &&& range == self.range
        &&& round.entries.len() == self.range.count()
    }
}

/// A serving worker that has taken in no token yet has, after serving `k`
/// tokens in order, the cache position `k`, and waits for the next request.
pub proof fn lemma_worker_counts_tokens<T>(w: WorkerView<T>, rounds: Seq<TokenRound<T>>)
    requires
        w.wf(),
        w.state == WorkerState::Serving,
        w.step == ServingStep::Request,
        w.cache.position == 0,
        rounds.len() <= u64::MAX,
        forall|i: int| 0 <= i < rounds.len() ==> w.is_round_at(#[trigger] rounds[i], i),
    ensures
        w.after_rounds(rounds).cache.position == rounds.len(),
        w.after_rounds(rounds).state == WorkerState::Serving,
        w.after_rounds(rounds).step == ServingStep::Request,
        w.after_rounds(rounds).wf(),
        w.after_rounds(rounds).range == w.range,
        w.after_rounds(rounds).next == w.next,
        w.after_rounds(rounds).digest == w.digest,
    decreases rounds.len(),
{
    if rounds.len() > 0 {
        let init = rounds.drop_last();
        assert forall|i: int| 0 <= i < init.len() implies w.is_round_at(#[trigger] init[i], i) by {
            assert(init[i] == rounds[i]);
        }
        lemma_worker_counts_tokens(w, init);
        assert(w.is_round_at(rounds[rounds.len() - 1], rounds.len() - 1));
    }
}

/// The tensor is well formed and short enough to travel in a `Forward`.
pub open spec fn travels(t: TensorView) -> bool {
    t.wf() && 24 + t.bytes().len() <= u64::MAX
}

/// The frame of a `Forward`.
pub open spec fn forward_frame(tensor: TensorView, position: u64, range: BlockRange) -> Seq<u8> {
    (MessageView::Forward { tensor, position, range }).frame()
}

/// The frame of a `Terminate`.
pub open spec fn terminate_frame() -> Seq<u8> {
    MessageView::Terminate.frame()
}

/// A worker that waits for a request and gets the one for its own blocks at
/// its cache's position runs the pass and takes the token into its cache;
/// the activation then goes to the next node, or back from the last one.
pub proof fn lemma_worker_takes_forward<T>(
    w: WorkerView<T>,
    input: TensorView,
    output: TensorView,
    entries: Seq<T>,
)
    requires
        w.state == WorkerState::Serving,
        w.step == ServingStep::Request,
        w.cache.position < u64::MAX,
        travels(input),
        entries.len() == w.cache.range.count(),
    ensures
        ({
            let asked = w.step(
                WorkerEventView::Frame(forward_frame(input, w.cache.position, w.range)),
            );
            let done = asked.0.step(WorkerEventView::Computed { output, entries });
            &&& asked.1 == (WorkerActionView::Compute { tensor: input, position: w.cache.position })
            &&& done.0 == (WorkerView {
                step: if w.next is Some {
                    ServingStep::NextHop
                } else {
                    ServingStep::Request
                },
                cache: w.cache.advanced(entries),
                ..w
            })
            &&& done.1 == match w.next {
                Some(range) => WorkerActionView::Relay(
                    MessageView::Forward { tensor: output, position: w.cache.position, range },
                ),
                None => WorkerActionView::Reply(MessageView::ForwardResult { tensor: output }),
            }
        }),
{
    let request = MessageView::Forward { tensor: input, position: w.cache.position, range: w.range };
    lemma_frame_roundtrip(request);
}

/// A worker that waits for the next node hands that node's result back to
/// the peer unchanged and waits for the next request.
pub proof fn lemma_worker_hands_back<T>(w: WorkerView<T>, answer: TensorView)
    requires
        w.state == WorkerState::Serving,
        w.step == ServingStep::NextHop,
    ensures
        w.step(WorkerEventView::HopReplied(MessageView::ForwardResult { tensor: answer })) == (
            WorkerView { step: ServingStep::Request, ..w },
            WorkerActionView::Reply(MessageView::ForwardResult { tensor: answer }),
        ),
{
}

/// A worker that waits for a request and gets `Terminate` ends its session
/// with an empty cache and hands the `Terminate` on to the next node, where
/// there is one.
pub proof fn lemma_worker_takes_terminate<T>(w: WorkerView<T>)
    requires
        w.state == WorkerState::Serving,
        w.step == ServingStep::Request,
    ensures
        w.step(WorkerEventView::Frame(terminate_frame())) == (
            WorkerView { state: WorkerState::Terminated, cache: w.cache.cleared(), ..w },
            WorkerActionView::Close {
                reply: None,
                forward: if w.next is Some {
                    Some(MessageView::Terminate)
                } else {
                    None
                },
            },
        ),
{
    lemma_frame_roundtrip(MessageView::Terminate);
}

/// `Terminate` from the peer and a fresh `Hello` both leave the cache at
/// position 0, whatever it held.
pub proof fn lemma_worker_reset<T>(w: WorkerView<T>, frame: Seq<u8>)
    requires
        parse_frame(frame) == Ok::<MessageView, ProtocolError>(MessageView::Terminate)
            && w.state == WorkerState::Serving && w.step == ServingStep::Request
            || parse_frame(frame) == Ok::<MessageView, ProtocolError>(
            MessageView::Hello { digest: w.digest },
        ) && w.state == WorkerState::Handshaking,
    ensures
        w.step(WorkerEventView::Frame(frame)).0.cache.position == 0,
        w.step(WorkerEventView::Frame(frame)).0.cache.entries.len() == 0,
{
}

/// A peer whose `Hello` carries another digest than the local one is told so
/// and cut off: the worker faults, drops its cache, and starts no forward
/// pass.
pub proof fn lemma_mismatched_hello_rejected<T>(w: WorkerView<T>, frame: Seq<u8>, digest: u64)
    requires
        w.state == WorkerState::Handshaking,
        parse_frame(frame) == Ok::<MessageView, ProtocolError>(MessageView::Hello { digest }),
        digest != w.digest,
    ensures
        w.step(WorkerEventView::Frame(frame)).0.state == WorkerState::Faulted,
        w.step(WorkerEventView::Frame(frame)).0.cache.position == 0,
        w.step(WorkerEventView::Frame(frame)).1 == (WorkerActionView::Close {
            reply: Some(MessageView::Error { reason: Reason::TopologyMismatch }),
            forward: None,
        }),
{
}

/// A forward pass is started, and a request handed to the next node, only by
/// a serving worker; and a worker comes to serve only by a `Hello` that
/// carries the local digest.
pub proof fn lemma_no_pass_without_handshake<T>(w: WorkerView<T>, event: WorkerEventView<T>)
    ensures
        w.step(event).1 is Compute || w.step(event).1 is Relay ==> w.state == WorkerState::Serving,
        w.step(event).0.state == WorkerState::Serving && w.state != WorkerState::Serving ==> {
            &&& w.state == WorkerState::Handshaking
            &&& event matches WorkerEventView::Frame(frame)
            &&& parse_frame(frame) == Ok::<MessageView, ProtocolError>(
                MessageView::Hello { digest: w.digest },
            )
        },
{
}

/// A frame that does not parse ends the session at once: the worker faults,
/// drops its cache and closes the connection without an answer; once the
/// connection is closed it listens again.
pub proof fn lemma_malformed_frame_faults<T>(w: WorkerView<T>, frame: Seq<u8>)
    requires
        w.state == WorkerState::Handshaking || (w.state == WorkerState::Serving && w.step
            == ServingStep::Request),
        parse_frame(frame) is Err,
    ensures
        w.step(WorkerEventView::Frame(frame)).0.state == WorkerState::Faulted,
        w.step(WorkerEventView::Frame(frame)).0.cache == w.cache.cleared(),
        w.step(WorkerEventView::Frame(frame)).1 == (WorkerActionView::Close {
            reply: None,
            forward: None,
        }),
        w.step(WorkerEventView::Frame(frame)).0.step(WorkerEventView::Released).0.state
            == WorkerState::Listening,
{
}

/// A worker node.
#[derive(Debug)]
pub struct Worker<T> {
    state: WorkerState,
    step: ServingStep,
    digest: u64,
    range: BlockRange,
    next: Option<BlockRange>,
    cache: Cache<T>,
}

impl<T> View for Worker<T> {
    type V = WorkerView<T>;

    closed spec fn view(&self) -> WorkerView<T> {
        WorkerView {
            state: self.state,
            step: self.step,
            digest: self.digest,
            range: self.range,
            next: self.next,
            cache: self.cache@,
        }
    }
}

/// The reason a worker gives upstream when its request to the next node
/// failed.
pub fn reason_for(e: ClientError) -> (r: Reason)
    ensures
        r == reason_of(e),
{
    match e {
        ClientError::Connection => Reason::Connection,
        ClientError::Timeout => Reason::Timeout,
        ClientError::TopologyMismatch => Reason::TopologyMismatch,
        ClientError::Protocol(_) => Reason::Protocol,
        ClientError::OutOfTurn => Reason::Protocol,
    }
}

/// The worker that listens for its first peer.
pub open spec fn fresh_worker<T>(digest: u64, range: BlockRange, next: Option<BlockRange>) -> WorkerView<
    T,
> {
    WorkerView {
        state: WorkerState::Listening,
        step: ServingStep::Request,
        digest,
        range,
        next,
        cache: CacheView { range, position: 0, entries: Seq::empty() },
    }
}

/// The worker for the node at `position` of a topology: it owns that node's
/// blocks and hands on to the node behind it.
pub open spec fn worker_at<T>(topology: TopologyView, position: int) -> WorkerView<T> {
    let ranges = topology.ranges();
    fresh_worker(
        topology.digest(),
        ranges[position],
        if position + 1 < ranges.len() {
            Some(ranges[position + 1])
        } else {
            None
        },
    )
}

impl<T> Worker<T> {
    /// A listening worker that owns `range` and hands on to the owner of
    /// `next`, in a topology with the given digest.
    pub fn new(digest: u64, range: BlockRange, next: Option<BlockRange>) -> (worker: Worker<T>)
        ensures
            worker@ == fresh_worker::<T>(digest, range, next),
            worker@.wf(),
    {
        Worker {
            state: WorkerState::Listening,
            step: ServingStep::Request,
            digest,
            range,
            next,
            cache: Cache::new(range),
        }
    }

    /// The worker for the node at `position` of the chain, if the chain is
    /// that long.
    pub fn for_position(topology: &Topology, position: usize) -> (r: Option<Worker<T>>)
        ensures
            r is Some <==> position < topology@.nodes.len(),
            r matches Some(worker) ==> worker@ == worker_at::<T>(topology@, position as int)
                && worker@.wf(),
    {
        match topology.range_of(position) {
            None => None,
            Some(range) => {
                let next = match topology.next_hop(position) {
                    Some(hop) => topology.range_of(hop),
                    None => None,
                };
                Some(Worker::new(topology.digest(), range, next))
            },
        }
    }

    /// Where the worker stands.
    pub fn state(&self) -> (s: WorkerState)
        ensures
            s == self@.state,
    {
        self.state
    }

    /// What the worker waits for while it serves.
    pub fn serving_step(&self) -> (s: ServingStep)
        ensures
            s == self@.step,
    {
        self.step
    }

    /// The blocks the worker owns.
    pub fn range(&self) -> (r: BlockRange)
        ensures
            r == self@.range,
    {
        self.range
    }

    /// Whether the worker is the last node of the chain.
    pub fn is_last(&self) -> (b: bool)
        ensures
            b == (self@.next is None),
    {
        self.next.is_none()
    }

    /// The worker's cache, for the tensor engine to read.
    pub fn cache(&self) -> (c: &Cache<T>)
        ensures
            c@ == self@.cache,
    {
        &self.cache
    }

    /// Breaks the session off.
    fn fault(&mut self, reply: Option<Message>) -> (action: WorkerAction)
        ensures
            (final(self)@, action@) == old(self)@.fault(view_of(reply)),
    {
        self.state = WorkerState::Faulted;
        self.step = ServingStep::Request;
        self.cache.reset();
        WorkerAction::Close { reply, forward: None }
    }

    /// Takes in the peer's first frame.
    fn greet(&mut self, frame: Vec<u8>) -> (action: WorkerAction)
        ensures
            (final(self)@, action@) == old(self)@.greet(frame@),
    {
        match Message::decode(frame.as_slice()) {
            Ok(Message::Hello { digest }) => {
                if digest == self.digest {
                    self.state = WorkerState::Serving;
                    self.step = ServingStep::Request;
                    self.cache.reset();
                    WorkerAction::Reply(Message::HelloAck)
                } else {
                    self.fault(Some(Message::Error { reason: Reason::TopologyMismatch }))
                }
            },
            Ok(_) => self.fault(Some(Message::Error { reason: Reason::Protocol })),
            Err(_) => self.fault(None),
        }
    }

    /// Takes in a frame while waiting for a request.
    fn serve(&mut self, frame: Vec<u8>) -> (action: WorkerAction)
        ensures
            (final(self)@, action@) == old(self)@.serve(frame@),
    {
        match Message::decode(frame.as_slice()) {
            Ok(Message::Forward { tensor, position, range }) => {
                if range.first == self.range.first && range.last == self.range.last && position
                    == self.cache.position() {
                    self.step = ServingStep::Compute;
                    WorkerAction::Compute { tensor, position }
                } else {
                    self.fault(Some(Message::Error { reason: Reason::Protocol }))
                }
            },
            Ok(Message::Terminate) => {
                self.state = WorkerState::Terminated;
                self.step = ServingStep::Request;
                self.cache.reset();
                let forward = if self.next.is_some() {
                    Some(Message::Terminate)
                } else {
                    None
                };
                WorkerAction::Close { reply: None, forward }
            },
            Ok(_) => self.fault(Some(Message::Error { reason: Reason::Protocol })),
            Err(_) => self.fault(None),
        }
    }

    /// Takes in what the forward pass left.
    fn computed(&mut self, output: TensorPayload, entries: Vec<T>) -> (action: WorkerAction)
        ensures
            (final(self)@, action@) == old(self)@.computed(output@, entries@),
    {
        let position = self.cache.position();
        match self.cache.commit(entries) {
            Ok(()) => match self.next {
                Some(range) => {
                    self.step = ServingStep::NextHop;
                    WorkerAction::Relay(Message::Forward { tensor: output, position, range })
                },
                None => {
                    self.step = ServingStep::Request;
                    WorkerAction::Reply(Message::ForwardResult { tensor: output })
                },
            },
            Err(_) => self.fault(Some(Message::Error { reason: Reason::Compute })),
        }
    }

    /// Takes in the answer of the next node.
    fn relayed(&mut self, answer: Message) -> (action: WorkerAction)
        ensures
            (final(self)@, action@) == old(self)@.relayed(answer@),
    {
        match answer {
            Message::ForwardResult { tensor } => {
                self.step = ServingStep::Request;
                WorkerAction::Reply(Message::ForwardResult { tensor })
            },
            Message::Error { reason } => self.fault(Some(Message::Error { reason })),
            _ => self.fault(Some(Message::Error { reason: Reason::Protocol })),
        }
    }

    /// Takes in `event` and says what is to be done next.
    pub fn step(&mut self, event: WorkerEvent<T>) -> (action: WorkerAction)
        ensures
            (final(self)@, action@) == old(self)@.step(event@),
    {
        match self.state {
            WorkerState::Listening => match event {
                WorkerEvent::Accepted => {
                    self.state = WorkerState::Handshaking;
                    WorkerAction::Receive
                },
                _ => WorkerAction::Accept,
            },
            WorkerState::Handshaking => match event {
                WorkerEvent::Frame(frame) => self.greet(frame),
                _ => self.fault(None),
            },
            WorkerState::Serving => match (self.step, event) {
                (ServingStep::Request, WorkerEvent::Frame(frame)) => self.serve(frame),
                (ServingStep::Compute, WorkerEvent::Computed { output, entries }) => self.computed(
                    output,
                    entries,
                ),
                (ServingStep::Compute, WorkerEvent::ComputeFailed) => self.fault(
                    Some(Message::Error { reason: Reason::Compute }),
                ),
                (ServingStep::NextHop, WorkerEvent::HopReplied(answer)) => self.relayed(answer),
                (ServingStep::NextHop, WorkerEvent::HopFailed(e)) => self.fault(
                    Some(Message::Error { reason: reason_for(e) }),
                ),
                (_, _) => self.fault(None),
            },
            WorkerState::Terminated | WorkerState::Faulted => match event {
                WorkerEvent::Released => {
                    self.state = WorkerState::Listening;
                    WorkerAction::Accept
                },
                _ => WorkerAction::Close { reply: None, forward: None },
            },
        }
    }
}

} // verus!
