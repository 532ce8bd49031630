use cake_core::cake::client::{Client, ClientAction, ClientError, ClientEvent};
use cake_core::cake::master::{Master, MasterAction, MasterEvent, MasterState, SessionError};
use cake_core::cake::proto::{Message, ProtocolError, Reason};
use cake_core::cake::tensor::{DType, TensorPayload};
use cake_core::cake::topology::{BlockRange, DeviceKind, Node, Topology};
use cake_core::cake::worker::{Worker, WorkerAction, WorkerEvent, WorkerState};

/// A chain in memory: `clients[i]` talks to `workers[i]`; the first client is
/// the master's, every other one belongs to the worker before it.
struct Net {
    workers: Vec<Worker<u32>>,
    clients: Vec<Client>,
    /// Every `Forward` that reached a worker: the worker and the position.
    forwards: Vec<(usize, u64)>,
    /// How many `Terminate` reached each worker.
    terminates: Vec<usize>,
    /// How many forward passes each worker ran.
    passes: Vec<usize>,
    /// Whether the connection into each worker stands.
    up: Vec<bool>,
    digest: u64,
}

fn topology(ranges: &[(u64, u64)], total: u64) -> Topology {
    let nodes = ranges
        .iter()
        .enumerate()
        .map(|(i, (first, last))| Node {
            address: format!("10.0.0.{}:10128", i + 1),
            range: BlockRange { first: *first, last: *last },
            device: DeviceKind::Cpu,
        })
        .collect();
    Topology::new(nodes, total).unwrap()
}

fn embedding(token: u32) -> TensorPayload {
    TensorPayload::new(vec![1, 1, 2], DType::F16, vec![token as u8, 0, 1, 2]).unwrap()
}

impl Net {
    fn new(t: &Topology) -> Net {
        let n = t.len();
        Net {
            workers: (0..n).map(|i| Worker::for_position(t, i).unwrap()).collect(),
            clients: (0..n).map(|_| Client::new(t.digest())).collect(),
            forwards: Vec::new(),
            terminates: vec![0; n],
            passes: vec![0; n],
            up: vec![false; n],
            digest: t.digest(),
        }
    }

    /// Hands `frame` to worker `i` and lets it work until it reads again or
    /// has closed; gives what it wrote back.
    fn deliver(&mut self, i: usize, frame: Vec<u8>) -> Option<Vec<u8>> {
        match Message::decode(&frame) {
            Ok(Message::Forward { position, .. }) => self.forwards.push((i, position)),
            Ok(Message::Terminate) => self.terminates[i] += 1,
            _ => {}
        }
        let mut action = self.workers[i].step(WorkerEvent::Frame(frame));
        loop {
            action = match action {
                WorkerAction::Reply(m) => return Some(m.encode()),
                WorkerAction::Receive | WorkerAction::Accept => return None,
                WorkerAction::Compute { tensor, position } => {
                    self.passes[i] += 1;
                    let range = self.workers[i].range();
                    let entries = (range.first..=range.last).map(|b| (b + position) as u32).collect();
                    self.workers[i].step(WorkerEvent::Computed { output: tensor, entries })
                }
                WorkerAction::Relay(m) => match self.request(i + 1, ClientEvent::Request(m)) {
                    ClientAction::Deliver(answer) => {
                        self.workers[i].step(WorkerEvent::HopReplied(answer))
                    }
                    ClientAction::Fail(e) => self.workers[i].step(WorkerEvent::HopFailed(e)),
                    other => panic!("request ended with {:?}", other),
                },
                WorkerAction::Close { reply, forward } => {
                    if let Some(m) = forward {
                        assert_eq!(self.request(i + 1, ClientEvent::Request(m)), ClientAction::Done);
                    }
                    if i + 1 < self.clients.len() {
                        self.clients[i + 1] = Client::new(self.digest);
                        self.hang_up(i + 1);
                    }
                    self.up[i] = false;
                    assert_eq!(self.workers[i].step(WorkerEvent::Released), WorkerAction::Accept);
                    return reply.map(|m| m.encode());
                }
            };
        }
    }

    /// The connection into worker `i` is dropped from the sending side.
    fn hang_up(&mut self, i: usize) {
        if self.up[i] {
            self.up[i] = false;
            assert_eq!(
                self.workers[i].step(WorkerEvent::Disconnected),
                WorkerAction::Close { reply: None, forward: None }
            );
            assert_eq!(self.workers[i].step(WorkerEvent::Released), WorkerAction::Accept);
            if i + 1 < self.workers.len() {
                self.clients[i + 1] = Client::new(self.digest);
                self.hang_up(i + 1);
            }
        }
    }

    /// Runs `event` through client `i` against worker `i`.
    fn request(&mut self, i: usize, event: ClientEvent) -> ClientAction {
        let mut inbox: Option<Vec<u8>> = None;
        let mut action = self.clients[i].step(event);
        loop {
            action = match action {
                ClientAction::Connect => {
                    self.hang_up(i);
                    assert_eq!(self.workers[i].step(WorkerEvent::Accepted), WorkerAction::Receive);
                    self.up[i] = true;
                    self.clients[i].step(ClientEvent::Connected)
                }
                ClientAction::Send(bytes) => {
                    if self.up[i] {
                        inbox = self.deliver(i, bytes);
                        self.clients[i].step(ClientEvent::Sent)
                    } else {
                        self.clients[i].step(ClientEvent::SocketError)
                    }
                }
                ClientAction::Receive => match inbox.take() {
                    Some(frame) => self.clients[i].step(ClientEvent::Frame(frame)),
                    None => self.clients[i].step(ClientEvent::SocketError),
                },
                done => return done,
            };
        }
    }

    /// Feeds the master until it asks for `stop` or the session is over;
    /// gives the tokens it put out and the action it stopped at.
    fn drive(
        &mut self,
        master: &mut Master<u32>,
        first: MasterEvent<u32>,
        stop_at_sample: bool,
    ) -> (Vec<u32>, MasterAction) {
        let mut out = Vec::new();
        let mut action = master.step(first);
        loop {
            action = match action {
                MasterAction::Open => match self.request(0, ClientEvent::Open) {
                    ClientAction::Done => master.step(MasterEvent::Opened),
                    ClientAction::Fail(e) => master.step(MasterEvent::Failed(e)),
                    other => panic!("open ended with {:?}", other),
                },
                MasterAction::Embed { token, .. } => {
                    master.step(MasterEvent::Embedded(embedding(token)))
                }
                MasterAction::Request(m) => match self.request(0, ClientEvent::Request(m)) {
                    ClientAction::Deliver(answer) => master.step(MasterEvent::Replied(answer)),
                    ClientAction::Fail(e) => master.step(MasterEvent::Failed(e)),
                    other => panic!("request ended with {:?}", other),
                },
                MasterAction::Sample { tensor } => {
                    if stop_at_sample {
                        return (out, MasterAction::Sample { tensor });
                    }
                    let token = tensor.data()[0] as u32 + 1;
                    master.step(MasterEvent::Sampled { token, end: false })
                }
                MasterAction::Emit { token } => {
                    out.push(token);
                    master.step(MasterEvent::Emitted)
                }
                MasterAction::Terminate => {
                    match self.request(0, ClientEvent::Request(Message::Terminate)) {
                        ClientAction::Done => master.step(MasterEvent::Released),
                        ClientAction::Fail(e) => master.step(MasterEvent::Failed(e)),
                        other => panic!("terminate ended with {:?}", other),
                    }
                }
                done => return (out, done),
            };
        }
    }
}

#[test]
fn one_token_through_two_workers() {
    let t = topology(&[(0, 3), (4, 7)], 8);
    let mut net = Net::new(&t);
    let mut master: Master<u32> = Master::for_topology(&t, "10.0.0.9:10128", 16);
    let (out, stopped) = net.drive(&mut master, MasterEvent::Start { token: 5 }, true);
    assert!(out.is_empty());
    assert_eq!(stopped, MasterAction::Sample { tensor: embedding(5) });
    // Exactly two Forward messages: master to the first worker, first to second.
    assert_eq!(net.forwards, vec![(0, 0), (1, 0)]);
    assert_eq!(net.passes, vec![1, 1]);
    // Both caches moved on to position 1.
    assert_eq!(net.workers[0].cache().position(), 1);
    assert_eq!(net.workers[1].cache().position(), 1);
    assert_eq!(net.workers[0].cache().get(3), Some(&3));
    assert_eq!(net.workers[1].cache().get(4), Some(&4));
    assert_eq!(net.terminates, vec![0, 0]);
    assert_eq!(master.position(), 0);
    assert_eq!(master.state(), MasterState::Generating);
}

#[test]
fn caches_keep_step_with_the_tokens() {
    let t = topology(&[(0, 1), (2, 4), (5, 7)], 8);
    let mut net = Net::new(&t);
    let mut master: Master<u32> = Master::for_topology(&t, "10.0.0.9:10128", 100);
    let (_, mut stopped) = net.drive(&mut master, MasterEvent::Start { token: 5 }, true);
    for k in 1..=10u64 {
        for w in &net.workers {
            assert_eq!(w.cache().position(), k);
        }
        assert_eq!(master.position(), k - 1);
        assert!(matches!(stopped, MasterAction::Sample { .. }));
        assert_eq!(
            master.step(MasterEvent::Sampled { token: k as u32, end: false }),
            MasterAction::Emit { token: k as u32 }
        );
        stopped = net.drive(&mut master, MasterEvent::Emitted, true).1;
    }
    assert_eq!(net.forwards.len(), 33);
    assert_eq!(net.passes, vec![11, 11, 11]);
}

#[test]
fn token_limit_sends_one_terminate_to_every_worker() {
    let t = topology(&[(0, 1), (2, 4), (5, 7)], 8);
    let mut net = Net::new(&t);
    let mut master: Master<u32> = Master::for_topology(&t, "10.0.0.9:10128", 4);
    let (out, done) = net.drive(&mut master, MasterEvent::Start { token: 5 }, false);
    assert_eq!(done, MasterAction::Finish);
    assert_eq!(out, vec![6, 7, 8, 9]);
    assert_eq!(master.state(), MasterState::Done);
    assert_eq!(net.terminates, vec![1, 1, 1]);
    assert_eq!(net.passes, vec![4, 4, 4]);
    for w in &net.workers {
        assert_eq!(w.state(), WorkerState::Listening);
        assert_eq!(w.cache().position(), 0);
    }
    // A second session on the same chain runs like the first. The master's
    // client still believes in its connection; the one retry heals that.
    assert!(net.clients[0].is_connected());
    let (out, done) = net.drive(&mut master, MasterEvent::Start { token: 1 }, false);
    assert_eq!(done, MasterAction::Finish);
    assert_eq!(out, vec![2, 3, 4, 5]);
    assert_eq!(net.terminates, vec![2, 2, 2]);
    assert_eq!(net.passes, vec![8, 8, 8]);
}

#[test]
fn master_with_leading_blocks_in_a_chain() {
    let t = topology(&[(0, 3), (4, 7)], 8);
    let mut net = Net::new(&t);
    let mut master: Master<u32> = Master::for_topology(&t, "10.0.0.1:10128", 2);
    // The master's client talks to the second node.
    net.workers.remove(0);
    net.clients.remove(0);
    net.terminates.remove(0);
    net.passes.remove(0);
    net.up.remove(0);
    let mut action = master.step(MasterEvent::Start { token: 5 });
    let mut local = 0;
    let mut out = Vec::new();
    loop {
        action = match action {
            MasterAction::Compute { tensor, position } => {
                local += 1;
                master.step(
                    MasterEvent::Computed { output: tensor, entries: vec![position as u32; 4] },
                )
            }
            MasterAction::Emit { token } => {
                out.push(token);
                master.step(MasterEvent::Emitted)
            }
            MasterAction::Finish => break,
            other => {
                let first = match other {
                    MasterAction::Open => MasterEvent::Opened,
                    MasterAction::Embed { token, .. } => MasterEvent::Embedded(embedding(token)),
                    MasterAction::Sample { .. } => MasterEvent::Sampled { token: 3, end: false },
                    MasterAction::Request(m) => match net.request(0, ClientEvent::Request(m)) {
                        ClientAction::Deliver(answer) => MasterEvent::Replied(answer),
                        other => panic!("request ended with {:?}", other),
                    },
                    MasterAction::Terminate => {
                        assert_eq!(
                            net.request(0, ClientEvent::Request(Message::Terminate)),
                            ClientAction::Done
                        );
                        MasterEvent::Released
                    }
                    other => panic!("master asked for {:?}", other),
                };
                master.step(first)
            }
        };
    }
    assert_eq!(local, 2);
    assert_eq!(out, vec![3, 3]);
    assert_eq!(net.forwards, vec![(0, 0), (0, 1)]);
    assert_eq!(net.terminates, vec![1]);
}

#[test]
fn peer_with_another_topology_runs_no_forward_pass() {
    let t = topology(&[(0, 3), (4, 7)], 8);
    let other = topology(&[(0, 4), (5, 7)], 8);
    let mut net = Net::new(&t);
    net.clients[0] = Client::new(other.digest());
    let mut master: Master<u32> = Master::for_topology(&other, "10.0.0.9:10128", 4);
    let (out, done) = net.drive(&mut master, MasterEvent::Start { token: 5 }, false);
    assert_eq!(done, MasterAction::Abort(SessionError::Client(ClientError::TopologyMismatch)));
    assert!(out.is_empty());
    assert!(net.forwards.is_empty());
    assert_eq!(net.passes, vec![0, 0]);
    assert_eq!(net.workers[0].state(), WorkerState::Listening);
    assert!(!net.clients[0].is_connected());
}

#[test]
fn truncated_frame_closes_the_connection_and_the_node_lives_on() {
    let t = topology(&[(0, 3), (4, 7)], 8);
    let mut net = Net::new(&t);
    let mut master: Master<u32> = Master::for_topology(&t, "10.0.0.9:10128", 2);
    net.drive(&mut master, MasterEvent::Start { token: 5 }, true);
    assert_eq!(net.workers[0].cache().position(), 1);
    // A frame whose header declares more than comes.
    let mut frame = (Message::Forward {
        tensor: embedding(1),
        position: 1,
        range: BlockRange { first: 0, last: 3 },
    })
    .encode();
    frame.truncate(frame.len() - 1);
    assert_eq!(Message::decode(&frame), Err(ProtocolError::Truncated));
    assert_eq!(net.deliver(0, frame), None);
    assert_eq!(net.passes, vec![1, 1]);
    for w in &net.workers {
        assert_eq!(w.state(), WorkerState::Listening);
        assert_eq!(w.cache().position(), 0);
    }
    // The nodes take the next session.
    net.clients[0] = Client::new(t.digest());
    let mut master: Master<u32> = Master::for_topology(&t, "10.0.0.9:10128", 2);
    let (out, done) = net.drive(&mut master, MasterEvent::Start { token: 5 }, false);
    assert_eq!(done, MasterAction::Finish);
    assert_eq!(out, vec![6, 7]);
    assert_eq!(net.terminates, vec![1, 1]);
}

#[test]
fn worker_failure_stops_the_token_stream() {
    let t = topology(&[(0, 3), (4, 7)], 8);
    let mut net = Net::new(&t);
    let mut master: Master<u32> = Master::for_topology(&t, "10.0.0.9:10128", 8);
    let (_, stopped) = net.drive(&mut master, MasterEvent::Start { token: 5 }, true);
    assert!(matches!(stopped, MasterAction::Sample { .. }));
    master.step(MasterEvent::Sampled { token: 6, end: false });
    // The second worker loses its session behind the first one's back. The
    // first worker's client connects afresh, but the second worker has
    // forgotten the session and refuses a request at position 1.
    net.hang_up(1);
    let (out, done) = net.drive(&mut master, MasterEvent::Emitted, false);
    assert!(out.is_empty());
    assert_eq!(done, MasterAction::Abort(SessionError::Worker(Reason::Protocol)));
    assert_eq!(master.state(), MasterState::Done);
    for w in &net.workers {
        assert_eq!(w.state(), WorkerState::Listening);
        assert_eq!(w.cache().position(), 0);
    }
}
