use cake_core::cake::client::ClientError;
use cake_core::cake::master::{
    Master, MasterAction, MasterEvent, MasterPhase, MasterState, SessionError,
};
use cake_core::cake::proto::{Message, ProtocolError, Reason};
use cake_core::cake::tensor::{DType, TensorPayload};
use cake_core::cake::topology::{BlockRange, DeviceKind, Node, Topology};

const OWN: BlockRange = BlockRange { first: 0, last: 1 };
const REMOTE: BlockRange = BlockRange { first: 2, last: 7 };

fn tensor(seed: u8) -> TensorPayload {
    TensorPayload::new(vec![1, 2], DType::F16, vec![seed, 2, 3, 4]).unwrap()
}

fn result(seed: u8) -> MasterEvent<u32> {
    MasterEvent::Replied(Message::ForwardResult { tensor: tensor(seed) })
}

/// A master without blocks of its own, at the head of the loop.
fn generating(max_tokens: u64) -> Master<u32> {
    let mut m = Master::new(None, Some(REMOTE), max_tokens);
    assert_eq!(m.state(), MasterState::Init);
    assert_eq!(m.step(MasterEvent::Start { token: 1 }), MasterAction::Open);
    assert_eq!(m.phase(), MasterPhase::Opening);
    assert_eq!(m.step(MasterEvent::Opened), MasterAction::Embed { token: 1, position: 0 });
    assert_eq!(m.state(), MasterState::Generating);
    m
}

/// One iteration of a master without blocks of its own; gives what it asks
/// for once the token is out.
fn iteration(m: &mut Master<u32>, token: u32, end: bool) -> MasterAction {
    let position = m.position();
    assert_eq!(
        m.step(MasterEvent::Embedded(tensor(1))),
        MasterAction::Request(Message::Forward { tensor: tensor(1), position, range: REMOTE })
    );
    assert_eq!(m.step(result(2)), MasterAction::Sample { tensor: tensor(2) });
    assert_eq!(m.step(MasterEvent::Sampled { token, end }), MasterAction::Emit { token });
    m.step(MasterEvent::Emitted)
}

#[test]
fn session_ends_at_the_token_limit_with_one_terminate() {
    let mut m = generating(5);
    let mut terminates = 0;
    for k in 0..4u64 {
        assert_eq!(
            iteration(&mut m, 100 + k as u32, false),
            MasterAction::Embed { token: 100 + k as u32, position: k + 1 }
        );
        assert_eq!(m.position(), k + 1);
    }
    let last = iteration(&mut m, 104, false);
    if last == MasterAction::Terminate {
        terminates += 1;
    }
    assert_eq!(last, MasterAction::Terminate);
    assert_eq!(m.phase(), MasterPhase::Closing);
    let done = m.step(MasterEvent::Released);
    assert_eq!(done, MasterAction::Finish);
    assert_eq!(m.state(), MasterState::Done);
    // Whatever comes after, no second Terminate goes out.
    for event in [
        MasterEvent::Emitted,
        MasterEvent::Released,
        MasterEvent::Opened,
        MasterEvent::Sampled { token: 1, end: true },
        result(1),
    ] {
        let action = m.step(event);
        assert_eq!(action, MasterAction::Abort(SessionError::OutOfTurn));
        if action == MasterAction::Terminate {
            terminates += 1;
        }
    }
    assert_eq!(terminates, 1);
    assert_eq!(m.state(), MasterState::Done);
}

#[test]
fn end_of_sequence_ends_the_session() {
    let mut m = generating(100);
    assert_eq!(iteration(&mut m, 7, false), MasterAction::Embed { token: 7, position: 1 });
    assert_eq!(iteration(&mut m, 2, true), MasterAction::Terminate);
    assert_eq!(m.step(MasterEvent::Released), MasterAction::Finish);
    assert_eq!(m.state(), MasterState::Done);
}

#[test]
fn limit_of_one_token() {
    let mut m = generating(1);
    assert_eq!(iteration(&mut m, 7, false), MasterAction::Terminate);
}

#[test]
fn limit_of_zero_tokens_ends_at_once() {
    let mut m: Master<u32> = Master::new(None, Some(REMOTE), 0);
    assert_eq!(m.step(MasterEvent::Start { token: 1 }), MasterAction::Finish);
    assert_eq!(m.state(), MasterState::Done);
}

#[test]
fn master_with_leading_blocks_runs_them_first() {
    let mut m: Master<u32> = Master::new(Some(OWN), Some(REMOTE), 2);
    assert_eq!(m.step(MasterEvent::Start { token: 1 }), MasterAction::Open);
    assert_eq!(m.step(MasterEvent::Opened), MasterAction::Embed { token: 1, position: 0 });
    assert_eq!(
        m.step(MasterEvent::Embedded(tensor(1))),
        MasterAction::Compute { tensor: tensor(1), position: 0 }
    );
    assert_eq!(m.phase(), MasterPhase::Local);
    assert_eq!(
        m.step(MasterEvent::Computed { output: tensor(3), entries: vec![10, 11] }),
        MasterAction::Request(Message::Forward { tensor: tensor(3), position: 0, range: REMOTE })
    );
    assert_eq!(m.cache().position(), 1);
    assert_eq!(m.cache().get(1), Some(&11));
    assert_eq!(m.step(result(4)), MasterAction::Sample { tensor: tensor(4) });
    assert_eq!(m.step(MasterEvent::Sampled { token: 9, end: false }), MasterAction::Emit { token: 9 });
    assert_eq!(m.step(MasterEvent::Emitted), MasterAction::Embed { token: 9, position: 1 });
    m.step(MasterEvent::Embedded(tensor(1)));
    m.step(MasterEvent::Computed { output: tensor(3), entries: vec![12, 13] });
    assert_eq!(m.cache().position(), 2);
    m.step(result(4));
    m.step(MasterEvent::Sampled { token: 9, end: false });
    assert_eq!(m.step(MasterEvent::Emitted), MasterAction::Terminate);
    // A new session starts with an empty cache.
    m.step(MasterEvent::Released);
    assert_eq!(m.step(MasterEvent::Start { token: 1 }), MasterAction::Open);
    assert_eq!(m.cache().position(), 0);
    assert_eq!(m.position(), 0);
}

#[test]
fn master_that_owns_every_block_needs_no_chain() {
    let mut m: Master<u32> = Master::new(Some(OWN), None, 1);
    assert_eq!(m.step(MasterEvent::Start { token: 1 }), MasterAction::Embed { token: 1, position: 0 });
    m.step(MasterEvent::Embedded(tensor(1)));
    assert_eq!(
        m.step(MasterEvent::Computed { output: tensor(3), entries: vec![10, 11] }),
        MasterAction::Sample { tensor: tensor(3) }
    );
    m.step(MasterEvent::Sampled { token: 9, end: false });
    assert_eq!(m.step(MasterEvent::Emitted), MasterAction::Finish);
    assert_eq!(m.state(), MasterState::Done);
}

#[test]
fn master_without_any_block_samples_the_embedding() {
    let mut m: Master<u32> = Master::new(None, None, 3);
    assert_eq!(m.step(MasterEvent::Start { token: 1 }), MasterAction::Embed { token: 1, position: 0 });
    assert_eq!(m.step(MasterEvent::Embedded(tensor(1))), MasterAction::Sample { tensor: tensor(1) });
}

#[test]
fn handshake_failure_aborts_the_session() {
    let mut m: Master<u32> = Master::new(None, Some(REMOTE), 5);
    m.step(MasterEvent::Start { token: 1 });
    assert_eq!(
        m.step(MasterEvent::Failed(ClientError::TopologyMismatch)),
        MasterAction::Abort(SessionError::Client(ClientError::TopologyMismatch))
    );
    assert_eq!(m.state(), MasterState::Done);
}

#[test]
fn failure_in_the_chain_aborts_without_a_token() {
    for (event, error) in [
        (
            MasterEvent::Failed(ClientError::Connection),
            SessionError::Client(ClientError::Connection),
        ),
        (MasterEvent::Failed(ClientError::Timeout), SessionError::Client(ClientError::Timeout)),
        (
            MasterEvent::Failed(ClientError::Protocol(ProtocolError::Truncated)),
            SessionError::Client(ClientError::Protocol(ProtocolError::Truncated)),
        ),
        (
            MasterEvent::Replied(Message::Error { reason: Reason::Compute }),
            SessionError::Worker(Reason::Compute),
        ),
        (
            MasterEvent::Replied(Message::HelloAck),
            SessionError::Client(ClientError::Protocol(ProtocolError::UnexpectedMessage)),
        ),
    ] {
        let mut m = generating(5);
        m.step(MasterEvent::Embedded(tensor(1)));
        assert_eq!(m.phase(), MasterPhase::Remote);
        assert_eq!(m.step(event), MasterAction::Abort(error));
        assert_eq!(m.state(), MasterState::Done);
        assert_eq!(m.phase(), MasterPhase::Idle);
        assert_eq!(
            m.step(MasterEvent::Sampled { token: 1, end: false }),
            MasterAction::Abort(SessionError::OutOfTurn)
        );
    }
}

#[test]
fn local_failure_aborts() {
    let mut m: Master<u32> = Master::new(Some(OWN), Some(REMOTE), 2);
    m.step(MasterEvent::Start { token: 1 });
    m.step(MasterEvent::Opened);
    m.step(MasterEvent::Embedded(tensor(1)));
    assert_eq!(m.step(MasterEvent::ComputeFailed), MasterAction::Abort(SessionError::Compute));
    let mut m: Master<u32> = Master::new(Some(OWN), Some(REMOTE), 2);
    m.step(MasterEvent::Start { token: 1 });
    m.step(MasterEvent::Opened);
    m.step(MasterEvent::Embedded(tensor(1)));
    assert_eq!(
        m.step(MasterEvent::Computed { output: tensor(3), entries: vec![10] }),
        MasterAction::Abort(SessionError::Compute)
    );
    assert_eq!(m.cache().position(), 0);
}

#[test]
fn failed_terminate_is_reported() {
    let mut m = generating(1);
    assert_eq!(iteration(&mut m, 7, false), MasterAction::Terminate);
    assert_eq!(
        m.step(MasterEvent::Failed(ClientError::Connection)),
        MasterAction::Abort(SessionError::Client(ClientError::Connection))
    );
    assert_eq!(m.state(), MasterState::Done);
}

#[test]
fn events_out_of_turn() {
    let mut m: Master<u32> = Master::new(None, Some(REMOTE), 5);
    assert_eq!(m.step(MasterEvent::Opened), MasterAction::Abort(SessionError::OutOfTurn));
    assert_eq!(m.state(), MasterState::Init);
    let mut m = generating(5);
    assert_eq!(m.step(MasterEvent::Emitted), MasterAction::Abort(SessionError::OutOfTurn));
    assert_eq!(m.state(), MasterState::Done);
    let mut m = generating(5);
    assert_eq!(
        m.step(MasterEvent::Start { token: 3 }),
        MasterAction::Abort(SessionError::OutOfTurn)
    );
}

#[test]
fn master_of_a_topology() {
    let nodes = vec![
        Node { address: "a".to_string(), range: OWN, device: DeviceKind::Cpu },
        Node { address: "b".to_string(), range: REMOTE, device: DeviceKind::Cpu },
    ];
    let t = Topology::new(nodes, 8).unwrap();
    // A master that is no node of the chain sends to the first node.
    let mut m: Master<u32> = Master::for_topology(&t, "m", 4);
    assert_eq!(m.step(MasterEvent::Start { token: 1 }), MasterAction::Open);
    m.step(MasterEvent::Opened);
    assert_eq!(
        m.step(MasterEvent::Embedded(tensor(1))),
        MasterAction::Request(Message::Forward { tensor: tensor(1), position: 0, range: OWN })
    );
    // A master at the head of the chain runs the leading blocks itself.
    let mut m: Master<u32> = Master::for_topology(&t, "a", 4);
    assert_eq!(m.cache().range(), OWN);
    m.step(MasterEvent::Start { token: 1 });
    m.step(MasterEvent::Opened);
    assert_eq!(
        m.step(MasterEvent::Embedded(tensor(1))),
        MasterAction::Compute { tensor: tensor(1), position: 0 }
    );
    assert_eq!(
        m.step(MasterEvent::Computed { output: tensor(2), entries: vec![1, 2] }),
        MasterAction::Request(Message::Forward { tensor: tensor(2), position: 0, range: REMOTE })
    );
}
