//! The orchestrator: it drives one generation session, token by token,
//! through the chain, and ends the session when the model or the token limit
//! says so.
//!
//! The master decides; whoever owns the client, the tensor engine, the
//! sampler and the output acts. Every event goes into `Master::step`, which
//! answers with the next thing to do.

use vstd::prelude::*;
use crate::cake::cache::{Cache, CacheView};
use crate::cake::client::ClientError;
use crate::cake::proto::{Message, MessageView, ProtocolError, Reason};
use crate::cake::tensor::{TensorPayload, TensorView};
use crate::cake::topology::{BlockRange, Topology, TopologyView};

verus! {

/// Where a session stands.
#[derive(Clone, Copy, Debug, PartialEq, Eq)]
pub enum MasterState {
    /// No session has run yet.
    Init,
    /// A session is running.
    Generating,
    /// The last session is over.
    Done,
}

/// What the master of a running session waits for.
#[derive(Clone, Copy, Debug, PartialEq, Eq)]
pub enum MasterPhase {
    /// Nothing: no session is running.
    Idle,
    /// The greeted connection to the first worker.
    Opening,
    /// The activation of the current token.
    Embedding,
    /// The forward pass of the own blocks.
    Local,
    /// The activation after the last block of the chain.
    Remote,
    /// The next token.
    Sampling,
    /// The token to be put out.
    Emitting,
    /// The `Terminate` to be written.
    Closing,
}

/// Why a session was given up.
#[derive(Clone, Copy, Debug, PartialEq, Eq)]
pub enum SessionError {
    /// The request into the chain failed.
    Client(ClientError),
    /// A worker gave up and said why.
    Worker(Reason),
    /// The local tensor engine failed.
    Compute,
    /// The event does not belong to what the master is doing.
    OutOfTurn,
}

/// What happened.
#[derive(Debug)]
pub enum MasterEvent<T> {
    /// A session is to start from `token`.
    Start { token: u32 },
    /// The connection to the first worker stands and is greeted.
    Opened,
    /// The current token is embedded.
    Embedded(TensorPayload),
    /// The forward pass of the own blocks is done: `output` is the
    /// activation after the last of them, `entries` the cache entries it
    /// left, one for each block.
    Computed { output: TensorPayload, entries: Vec<T> },
    /// The local tensor engine failed.
    ComputeFailed,
    /// The chain answered.
    Replied(Message),
    /// The request into the chain failed.
    Failed(ClientError),
    /// The next token is `token`; `end` says that it ends the sequence.
    Sampled { token: u32, end: bool },
    /// The token is put out.
    Emitted,
    /// The `Terminate` is written.
    Released,
}

/// What to do next.
#[derive(Debug, PartialEq, Eq)]
pub enum MasterAction {
    /// Establish and greet the connection to the first worker.
    Open,
    /// Embed `token`, which stands at `position` of the sequence.
    Embed { token: u32, position: u64 },
    /// Run the forward pass of the own blocks on `tensor`.
    Compute { tensor: TensorPayload, position: u64 },
    /// Send this request into the chain and wait for the answer.
    Request(Message),
    /// Project `tensor` onto the vocabulary and sample the next token.
    Sample { tensor: TensorPayload },
    /// Put `token` out.
    Emit { token: u32 },
    /// Send `Terminate` into the chain.
    Terminate,
    /// The session is over.
    Finish,
    /// The session is given up; the connection into the chain is to be
    /// dropped.
    Abort(SessionError),
}

pub enum MasterEventView<T> {
    Start { token: u32 },
    Opened,
    Embedded(TensorView),
    Computed { output: TensorView, entries: Seq<T> },
    ComputeFailed,
    Replied(MessageView),
    Failed(ClientError),
    Sampled { token: u32, end: bool },
    Emitted,
    Released,
}

pub enum MasterActionView {
    Open,
    Embed { token: u32, position: u64 },
    Compute { tensor: TensorView, position: u64 },
    Request(MessageView),
    Sample { tensor: TensorView },
    Emit { token: u32 },
    Terminate,
    Finish,
    Abort(SessionError),
}

impl<T> View for MasterEvent<T> {
    type V = MasterEventView<T>;

    open spec fn view(&self) -> MasterEventView<T> {
        match *self {
            MasterEvent::Start { token } => MasterEventView::Start { token },
            MasterEvent::Opened => MasterEventView::Opened,
            MasterEvent::Embedded(t) => MasterEventView::Embedded(t@),
            MasterEvent::Computed { output, entries } => MasterEventView::Computed {
                output: output@,
                entries: entries@,
            },
            MasterEvent::ComputeFailed => MasterEventView::ComputeFailed,
            MasterEvent::Replied(m) => MasterEventView::Replied(m@),
            MasterEvent::Failed(e) => MasterEventView::Failed(e),
            MasterEvent::Sampled { token, end } => MasterEventView::Sampled { token, end },
            MasterEvent::Emitted => MasterEventView::Emitted,
            MasterEvent::Released => MasterEventView::Released,
        }
    }
}

impl View for MasterAction {
    type V = MasterActionView;

    open spec fn view(&self) -> MasterActionView {
        match *self {
            MasterAction::Open => MasterActionView::Open,
            MasterAction::Embed { token, position } => MasterActionView::Embed { token, position },
            MasterAction::Compute { tensor, position } => MasterActionView::Compute {
                tensor: tensor@,
                position,
            },
            MasterAction::Request(m) => MasterActionView::Request(m@),
            MasterAction::Sample { tensor } => MasterActionView::Sample { tensor: tensor@ },
            MasterAction::Emit { token } => MasterActionView::Emit { token },
            MasterAction::Terminate => MasterActionView::Terminate,
            MasterAction::Finish => MasterActionView::Finish,
            MasterAction::Abort(e) => MasterActionView::Abort(e),
        }
    }
}

/// What a master is.
pub struct MasterView<T> {
    pub state: MasterState,
    pub phase: MasterPhase,
    /// Whether the master owns the leading blocks of the model.
    pub local: bool,
    /// The blocks of the first worker, if the chain has one.
    pub remote: Option<BlockRange>,
    /// The cache of the own blocks.
    pub cache: CacheView<T>,
    /// Position of the current token in the sequence: the number of tokens
    /// that this session has put out before it.
    pub position: u64,
    /// Number of tokens after which the session ends at the latest.
    pub max_tokens: u64,
    /// The current token.
    pub token: u32,
    /// Whether the current token ends the sequence.
    pub ending: bool,
}

impl<T> MasterView<T> {
    /// The session is given up.
    pub open spec fn abort(self, e: SessionError) -> (MasterView<T>, MasterActionView) {
        (
            MasterView {
                state: MasterState::Done,
                phase: MasterPhase::Idle,
                cache: self.cache.cleared(),
                ..self
            },
            MasterActionView::Abort(e),
        )
    }

    /// A session starts: the own cache is emptied, and the chain is greeted
    /// before anything else. A token limit of 0 ends the session at once.
    pub open spec fn start(self, token: u32) -> (MasterView<T>, MasterActionView) {
        let fresh = MasterView {
            cache: self.cache.cleared(),
            position: 0,
            token,
            ending: false,
            ..self
        };
        if self.max_tokens == 0 {
            (
                MasterView { state: MasterState::Done, phase: MasterPhase::Idle, ..fresh },
                MasterActionView::Finish,
            )
        } else if self.remote is Some {
            (
                MasterView { state: MasterState::Generating, phase: MasterPhase::Opening, ..fresh },
                MasterActionView::Open,
            )
        } else {
            (
                MasterView {
                    state: MasterState::Generating,
                    phase: MasterPhase::Embedding,
                    ..fresh
                },
                MasterActionView::Embed { token, position: 0 },
            )
        }
    }

    /// The activation has passed the own blocks, if there are any: it goes
    /// into the chain, or, without a chain, to the sampler.
    pub open spec fn dispatch(self, tensor: TensorView) -> (MasterView<T>, MasterActionView) {
        match self.remote {
            Some(range) => (
                MasterView { phase: MasterPhase::Remote, ..self },
                MasterActionView::Request(
                    MessageView::Forward { tensor, position: self.position, range },
                ),
            ),
            None => (
                MasterView { phase: MasterPhase::Sampling, ..self },
                MasterActionView::Sample { tensor },
            ),
        }
    }

    /// The current token is embedded.
    pub open spec fn embedded(self, tensor: TensorView) -> (MasterView<T>, MasterActionView) {
        if self.local {
            (
                MasterView { phase: MasterPhase::Local, ..self },
                MasterActionView::Compute { tensor, position: self.position },
            )
        } else {
            self.dispatch(tensor)
        }
    }

    /// The forward pass of the own blocks is done.
    pub open spec fn computed(self, output: TensorView, entries: Seq<T>) -> (
        MasterView<T>,
        MasterActionView,
    ) {
        if self.cache.accepts(entries) {
            (MasterView { cache: self.cache.advanced(entries), ..self }).dispatch(output)
        } else {
            self.abort(SessionError::Compute)
        }
    }

    /// The chain answered.
    pub open spec fn replied(self, answer: MessageView) -> (MasterView<T>, MasterActionView) {
        match answer {
            MessageView::ForwardResult { tensor } => (
                MasterView { phase: MasterPhase::Sampling, ..self },
                MasterActionView::Sample { tensor },
            ),
            MessageView::Error { reason } => self.abort(SessionError::Worker(reason)),
            _ => self.abort(
                SessionError::Client(ClientError::Protocol(ProtocolError::UnexpectedMessage)),
            ),
        }
    }

    /// Whether the session ends with the token that was just put out: it
    /// ends the sequence, or it is the last that the limit allows.
    pub open spec fn is_over(self) -> bool {
        self.ending || self.position + 1 >= self.max_tokens
    }

    /// The current token is put out: the session ends, with a `Terminate`
    /// into the chain where there is one, or goes on with the next token.
    pub open spec fn emitted(self) -> (MasterView<T>, MasterActionView) {
        if self.is_over() {
            if self.remote is Some {
                (
                    MasterView { phase: MasterPhase::Closing, ..self },
                    MasterActionView::Terminate,
                )
            } else {
                (
                    MasterView { state: MasterState::Done, phase: MasterPhase::Idle, ..self },
                    MasterActionView::Finish,
                )
            }
        } else {
            (
                MasterView {
                    phase: MasterPhase::Embedding,
                    position: (self.position + 1) as u64,
                    ..self
                },
                MasterActionView::Embed {
                    token: self.token,
                    position: (self.position + 1) as u64,
                },
            )
        }
    }

    /// The master after `event`, and what is to be done next.
    pub open spec fn step(self, event: MasterEventView<T>) -> (MasterView<T>, MasterActionView) {
        match self.state {
            MasterState::Init | MasterState::Done => match event {
                MasterEventView::Start { token } => self.start(token),
                _ => (self, MasterActionView::Abort(SessionError::OutOfTurn)),
            },
            MasterState::Generating => match (self.phase, event) {
                (MasterPhase::Opening, MasterEventView::Opened) => (
                    MasterView { phase: MasterPhase::Embedding, ..self },
                    MasterActionView::Embed { token: self.token, position: self.position },
                ),
                (MasterPhase::Embedding, MasterEventView::Embedded(tensor)) => self.embedded(tensor),
                (MasterPhase::Local, MasterEventView::Computed { output, entries }) => self.computed(
                    output,
                    entries,
                ),
                (MasterPhase::Local, MasterEventView::ComputeFailed) => self.abort(
                    SessionError::Compute,
                ),
                (MasterPhase::Remote, MasterEventView::Replied(answer)) => self.replied(answer),
                (MasterPhase::Sampling, MasterEventView::Sampled { token, end }) => (
                    MasterView { phase: MasterPhase::Emitting, token, ending: end, ..self },
                    MasterActionView::Emit { token },
                ),
                (MasterPhase::Emitting, MasterEventView::Emitted) => self.emitted(),
                (MasterPhase::Closing, MasterEventView::Released) => (
                    MasterView { state: MasterState::Done, phase: MasterPhase::Idle, ..self },
                    MasterActionView::Finish,
                ),
                (MasterPhase::Opening, MasterEventView::Failed(e)) => self.abort(
                    SessionError::Client(e),
                ),
                (MasterPhase::Remote, MasterEventView::Failed(e)) => self.abort(
                    SessionError::Client(e),
                ),
                (MasterPhase::Closing, MasterEventView::Failed(e)) => self.abort(
                    SessionError::Client(e),
                ),
                (_, _) => self.abort(SessionError::OutOfTurn),
            },
        }
    }
}

/// What happens around the master while it generates one token: the
/// embedding of the current token, what the forward pass of the own blocks
/// leaves, the chain's result, and the token that the sampler picks.
pub struct Iteration<T> {
    pub embedded: TensorView,
    pub output: TensorView,
    pub entries: Seq<T>,
    pub result: TensorView,
    pub token: u32,
    pub end: bool,
}

impl<T> MasterView<T> {
    /// The master after one iteration of the loop, and what it asks for at
    /// the end of it.
    pub open spec fn iterate(self, it: Iteration<T>) -> (MasterView<T>, MasterActionView) {
        let a = self.step(MasterEventView::Embedded(it.embedded)).0;
        let b = if self.local {
            a.step(MasterEventView::Computed { output: it.output, entries: it.entries }).0
        } else {
            a
        };
        let c = if self.remote is Some {
            b.step(MasterEventView::Replied(MessageView::ForwardResult { tensor: it.result })).0
        } else {
            b
        };
        let d = c.step(MasterEventView::Sampled { token: it.token, end: it.end }).0;
        d.step(MasterEventView::Emitted)
    }

    /// The master after the iterations `its`, one after the other.
    pub open spec fn generate(self, its: Seq<Iteration<T>>) -> MasterView<T>
        decreases its.len(),
    {
        if its.len() == 0 {
            self
        } else {
            self.generate(its.drop_last()).iterate(its.last()).0
        }
    }

    /// The master after `events`, one after the other.
    pub open spec fn run(self, events: Seq<MasterEventView<T>>) -> MasterView<T>
        decreases events.len(),
    {
        if events.len() == 0 {
            self
        } else {
            self.run(events.drop_last()).step(events.last()).0
        }
    }

    /// How often the master asks for a `Terminate` while it takes in
    /// `events`.
    pub open spec fn terminations(self, events: Seq<MasterEventView<T>>) -> nat
        decreases events.len(),
    {
        if events.len() == 0 {
            0
        } else {
            let before = self.terminations(events.drop_last());
            if self.run(events.drop_last()).step(events.last()).1 is Terminate {
                before + 1
            } else {
                before
            }
        }
    }

    /// The iteration leaves one cache entry for each own block.
    pub open spec fn fits(self, it: Iteration<T>) -> bool {
        self.local ==> it.entries.len() == self.cache.range.count()
    }

    /// The master is at the head of the loop of a session that has put out
    /// nothing yet.
    pub open spec fn is_fresh(self) -> bool {
        &&& self.state == MasterState::Generating
        &&& self.phase == MasterPhase::Embedding
        &&& self.position == 0
        &&& self.cache.position == 0
    }
}

/// After `k` iterations, none of which ended the sequence and with `k` below
/// the token limit, the master is at the head of the loop with the token at
/// position `k`, and the cache of its own blocks has taken in `k` tokens.
pub proof fn lemma_master_counts_tokens<T>(m: MasterView<T>, its: Seq<Iteration<T>>)
    requires
        m.is_fresh(),
        its.len() < m.max_tokens,
        forall|i: int| 0 <= i < its.len() ==> m.fits(#[trigger] its[i]) && !its[i].end,
    ensures
        m.generate(its).state == MasterState::Generating,
        m.generate(its).phase == MasterPhase::Embedding,
        m.generate(its).position == its.len(),
        m.generate(its).cache.position == if m.local {
            its.len()
        } else {
            0
        },
        m.generate(its).cache.range == m.cache.range,
        m.generate(its).local == m.local,
        m.generate(its).remote == m.remote,
        m.generate(its).max_tokens == m.max_tokens,
    decreases its.len(),
{
    if its.len() > 0 {
        let init = its.drop_last();
        assert forall|i: int| 0 <= i < init.len() implies m.fits(#[trigger] init[i])
            && !init[i].end by {
            assert(init[i] == its[i]);
        }
        lemma_master_counts_tokens(m, init);
        assert(m.fits(its[its.len() - 1]) && !its[its.len() - 1].end);
    }
}

/// The iteration that puts out the last token that the limit allows ends the
/// loop: the master asks for a `Terminate` into the chain, or, without a
/// chain, is done.
pub proof fn lemma_session_ends_at_limit<T>(
    m: MasterView<T>,
    its: Seq<Iteration<T>>,
    last: Iteration<T>,
)
    requires
        m.is_fresh(),
        its.len() + 1 == m.max_tokens,
        forall|i: int| 0 <= i < its.len() ==> m.fits(#[trigger] its[i]) && !its[i].end,
        m.fits(last),
    ensures
        m.remote is Some ==> m.generate(its).iterate(last).1 is Terminate && m.generate(
            its,
        ).iterate(last).0.phase == MasterPhase::Closing,
        m.remote is None ==> m.generate(its).iterate(last).1 is Finish && m.generate(its).iterate(
            last,
        ).0.state == MasterState::Done,
        m.generate(its).iterate(last).0.step(MasterEventView::Released).0.state
            == MasterState::Done,
{
    lemma_master_counts_tokens(m, its);
}

/// A failure of the chain or of the own blocks ends the session at once, and
/// the session puts out no token after it: the failed step leaves no token
/// behind, whatever comes in later, until a new session starts.
pub proof fn lemma_failure_emits_nothing<T>(
    m: MasterView<T>,
    failure: MasterEventView<T>,
    later: MasterEventView<T>,
)
    requires
        m.state == MasterState::Generating,
        failure is Failed || failure is ComputeFailed || (failure matches MasterEventView::Replied(
            answer,
        ) && !(answer is ForwardResult)),
        !(later is Start),
    ensures
        m.step(failure).1 is Abort,
        m.step(failure).0.state == MasterState::Done,
        m.step(failure).0.step(later) == (
            m.step(failure).0,
            MasterActionView::Abort(SessionError::OutOfTurn),
        ),
{
}

/// The session is closed for good: it is over, or its `Terminate` is on the
/// way.
pub open spec fn is_closed<T>(m: MasterView<T>) -> bool {
    m.state == MasterState::Done || (m.state == MasterState::Generating && m.phase
        == MasterPhase::Closing)
}

/// Within one session, that is as long as no new one is started, the master
/// asks for a `Terminate` at most once; once it has, the session is closed,
/// and a closed session asks for none.
pub proof fn lemma_terminates_once<T>(m: MasterView<T>, events: Seq<MasterEventView<T>>)
    requires
        forall|i: int| 0 <= i < events.len() ==> !((#[trigger] events[i]) is Start),
    ensures
        m.terminations(events) <= 1,
        m.terminations(events) == 1 ==> is_closed(m.run(events)),
        is_closed(m) ==> m.terminations(events) == 0 && is_closed(m.run(events)),
    decreases events.len(),
{
    if events.len() > 0 {
        let init = events.drop_last();
        assert forall|i: int| 0 <= i < init.len() implies !((#[trigger] init[i]) is Start) by {
            assert(init[i] == events[i]);
        }
        lemma_terminates_once(m, init);
        assert(!(events[events.len() - 1] is Start));
    }
}

/// The orchestrator of one chain.
#[derive(Debug)]
pub struct Master<T> {
    state: MasterState,
    phase: MasterPhase,
    local: bool,
    remote: Option<BlockRange>,
    cache: Cache<T>,
    position: u64,
    max_tokens: u64,
    token: u32,
    ending: bool,
}

impl<T> View for Master<T> {
    type V = MasterView<T>;

    closed spec fn view(&self) -> MasterView<T> {
        MasterView {
            state: self.state,
            phase: self.phase,
            local: self.local,
            remote: self.remote,
            cache: self.cache@,
            position: self.position,
            max_tokens: self.max_tokens,
            token: self.token,
            ending: self.ending,
        }
    }
}

/// The range that a master without blocks of its own has a cache for: none.
pub open spec fn no_blocks() -> BlockRange {
    BlockRange { first: 1, last: 0 }
}

/// The master that has run no session yet, with or without blocks of its
/// own and with or without a chain to send into.
pub open spec fn fresh_master<T>(
    local: Option<BlockRange>,
    remote: Option<BlockRange>,
    max_tokens: u64,
) -> MasterView<T> {
    MasterView {
        state: MasterState::Init,
        phase: MasterPhase::Idle,
        local: local is Some,
        remote,
        cache: CacheView {
            range: match local {
                Some(range) => range,
                None => no_blocks(),
            },
            position: 0,
            entries: Seq::empty(),
        },
        position: 0,
        max_tokens,
        token: 0,
        ending: false,
    }
}

/// The master of a topology, reached at `address`: it owns the blocks of the
/// node at the head of the chain where that node is reached at the same
/// address, and sends into the chain at the first node that is not its own.
pub open spec fn master_of<T>(topology: TopologyView, address: Seq<char>, max_tokens: u64) -> MasterView<
    T,
> {
    let ranges = topology.ranges();
    if ranges.len() > 0 && topology.nodes[0].address@ == address {
        fresh_master(
            Some(ranges[0]),
            if ranges.len() > 1 {
                Some(ranges[1])
            } else {
                None
            },
            max_tokens,
        )
    } else {
        fresh_master(
            None,
            if ranges.len() > 0 {
                Some(ranges[0])
            } else {
                None
            },
            max_tokens,
        )
    }
}

impl<T> Master<T> {
    /// A master that has run no session yet. It owns the blocks of `local`,
    /// if any, sends into the chain at the owner of `remote`, if any, and
    /// ends a session after `max_tokens` tokens at the latest.
    pub fn new(local: Option<BlockRange>, remote: Option<BlockRange>, max_tokens: u64) -> (master:
        Master<T>)
        ensures
            master@ == fresh_master::<T>(local, remote, max_tokens),
    {
        let range = match local {
            Some(range) => range,
            None => BlockRange { first: 1, last: 0 },
        };
        Master {
            state: MasterState::Init,
            phase: MasterPhase::Idle,
            local: local.is_some(),
            remote,
            cache: Cache::new(range),
            position: 0,
            max_tokens,
            token: 0,
            ending: false,
        }
    }

    /// The master of `topology`. Where the node at the head of the chain is
    /// reached at `address`, the master's own, the master owns that node's
    /// blocks and sends into the chain at the second node; else it owns none
    /// and sends to the first.
    pub fn for_topology(topology: &Topology, address: &str, max_tokens: u64) -> (master: Master<T>)
        ensures
            master@ == master_of::<T>(topology@, address@, max_tokens),
    {
        match topology.position_of(address) {
            Some(0) => Master::new(topology.range_of(0), topology.range_of(1), max_tokens),
            _ => Master::new(None, topology.range_of(0), max_tokens),
        }
    }

    /// Where the session stands.
    pub fn state(&self) -> (s: MasterState)
        ensures
            s == self@.state,
    {
        self.state
    }

    /// What the master waits for.
    pub fn phase(&self) -> (p: MasterPhase)
        ensures
            p == self@.phase,
    {
        self.phase
    }

    /// Position of the current token: the number of tokens that this session
    /// has put out before it.
    pub fn position(&self) -> (p: u64)
        ensures
            p == self@.position,
    {
        self.position
    }

    /// The cache of the own blocks, for the tensor engine to read.
    pub fn cache(&self) -> (c: &Cache<T>)
        ensures
            c@ == self@.cache,
    {
        &self.cache
    }

    /// Gives the session up.
    fn abort(&mut self, e: SessionError) -> (action: MasterAction)
        ensures
            (final(self)@, action@) == old(self)@.abort(e),
    {
        self.state = MasterState::Done;
        self.phase = MasterPhase::Idle;
        self.cache.reset();
        MasterAction::Abort(e)
    }

    /// Starts a session from `token`.
    fn start(&mut self, token: u32) -> (action: MasterAction)
        ensures
            (final(self)@, action@) == old(self)@.start(token),
    {
        self.cache.reset();
        self.position = 0;
        self.token = token;
        self.ending = false;
        if self.max_tokens == 0 {
            self.state = MasterState::Done;
            self.phase = MasterPhase::Idle;
            MasterAction::Finish
        } else if self.remote.is_some() {
            self.state = MasterState::Generating;
            self.phase = MasterPhase::Opening;
            MasterAction::Open
        } else {
            self.state = MasterState::Generating;
            self.phase = MasterPhase::Embedding;
            MasterAction::Embed { token, position: 0 }
        }
    }

    /// Sends the activation into the chain, or to the sampler without one.
    fn dispatch(&mut self, tensor: TensorPayload) -> (action: MasterAction)
        ensures
            (final(self)@, action@) == old(self)@.dispatch(tensor@),
    {
        match self.remote {
            Some(range) => {
                self.phase = MasterPhase::Remote;
                MasterAction::Request(Message::Forward { tensor, position: self.position, range })
            },
            None => {
                self.phase = MasterPhase::Sampling;
                MasterAction::Sample { tensor }
            },
        }
    }

    /// Takes in the embedding of the current token.
    fn embedded(&mut self, tensor: TensorPayload) -> (action: MasterAction)
        ensures
            (final(self)@, action@) == old(self)@.embedded(tensor@),
    {
        if self.local {
            self.phase = MasterPhase::Local;
            MasterAction::Compute { tensor, position: self.position }
        } else {
            self.dispatch(tensor)
        }
    }

    /// Takes in what the forward pass of the own blocks left.
    fn computed(&mut self, output: TensorPayload, entries: Vec<T>) -> (action: MasterAction)
        ensures
            (final(self)@, action@) == old(self)@.computed(output@, entries@),
    {
        match self.cache.commit(entries) {
            Ok(()) => self.dispatch(output),
            Err(_) => self.abort(SessionError::Compute),
        }
    }

    /// Takes in the answer of the chain.
    fn replied(&mut self, answer: Message) -> (action: MasterAction)
        ensures
            (final(self)@, action@) == old(self)@.replied(answer@),
    {
        match answer {
            Message::ForwardResult { tensor } => {
                self.phase = MasterPhase::Sampling;
                MasterAction::Sample { tensor }
            },
            Message::Error { reason } => self.abort(SessionError::Worker(reason)),
            _ => self.abort(
                SessionError::Client(ClientError::Protocol(ProtocolError::UnexpectedMessage)),
            ),
        }
    }

    /// Ends the session or goes on with the next token.
    fn emitted(&mut self) -> (action: MasterAction)
        ensures
            (final(self)@, action@) == old(self)@.emitted(),
    {
        let over = self.ending || self.position >= self.max_tokens || self.max_tokens
            - self.position == 1;
        if over {
            if self.remote.is_some() {
                self.phase = MasterPhase::Closing;
                MasterAction::Terminate
            } else {
                self.state = MasterState::Done;
                self.phase = MasterPhase::Idle;
                MasterAction::Finish
            }
        } else {
            self.phase = MasterPhase::Embedding;
            self.position = self.position + 1;
            MasterAction::Embed { token: self.token, position: self.position }
        }
    }

    /// Takes in `event` and says what is to be done next.
    pub fn step(&mut self, event: MasterEvent<T>) -> (action: MasterAction)
        ensures
            (final(self)@, action@) == old(self)@.step(event@),
    {
        match self.state {
            MasterState::Init | MasterState::Done => match event {
                MasterEvent::Start { token } => self.start(token),
                _ => MasterAction::Abort(SessionError::OutOfTurn),
            },
            MasterState::Generating => match (self.phase, event) {
                (MasterPhase::Opening, MasterEvent::Opened) => {
                    self.phase = MasterPhase::Embedding;
                    MasterAction::Embed { token: self.token, position: self.position }
                },
                (MasterPhase::Embedding, MasterEvent::Embedded(tensor)) => self.embedded(tensor),
                (MasterPhase::Local, MasterEvent::Computed { output, entries }) => self.computed(
                    output,
                    entries,
                ),
                (MasterPhase::Local, MasterEvent::ComputeFailed) => self.abort(
                    SessionError::Compute,
                ),
                (MasterPhase::Remote, MasterEvent::Replied(answer)) => self.replied(answer),
                (MasterPhase::Sampling, MasterEvent::Sampled { token, end }) => {
                    self.phase = MasterPhase::Emitting;
                    self.token = token;
                    self.ending = end;
                    MasterAction::Emit { token }
                },
                (MasterPhase::Emitting, MasterEvent::Emitted) => self.emitted(),
                (MasterPhase::Closing, MasterEvent::Released) => {
                    self.state = MasterState::Done;
                    self.phase = MasterPhase::Idle;
                    MasterAction::Finish
                },
                (MasterPhase::Opening, MasterEvent::Failed(e)) => self.abort(
                    SessionError::Client(e),
                ),
                (MasterPhase::Remote, MasterEvent::Failed(e)) => self.abort(SessionError::Client(e)),
                (MasterPhase::Closing, MasterEvent::Failed(e)) => self.abort(
                    SessionError::Client(e),
                ),
                (_, _) => self.abort(SessionError::OutOfTurn),
            },
        }
    }
}

} // verus!
