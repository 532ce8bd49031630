//! The chain as a whole: what one request does to all the workers it
//! passes, stated over the workers' own steps.

use vstd::prelude::*;
use crate::cake::client::hello_frame;
use crate::cake::proto::{lemma_frame_roundtrip, MessageView};
use crate::cake::tensor::TensorView;
use crate::cake::topology::{BlockRange, TopologyView};
use crate::cake::worker::{
    forward_frame, lemma_worker_hands_back, lemma_worker_takes_forward,
    lemma_worker_takes_terminate, terminate_frame, travels, worker_at, ServingStep,
    WorkerActionView, WorkerEventView, WorkerState, WorkerView,
};

verus! {

/// What the forward pass of one worker leaves: the activation after its last
/// block, and the cache entries of its blocks.
pub struct Pass<T> {
    pub output: TensorView,
    pub entries: Seq<T>,
}

/// What a request has done once it is through: the workers as they stand,
/// the activation that came back to the sender, where one came back, and the
/// number of frames that reached a worker on the way.
pub struct Outcome<T> {
    pub workers: Seq<WorkerView<T>>,
    pub result: Option<TensorView>,
    pub frames: nat,
}

/// A `Forward` for `range` reaches the worker at `at`: the worker runs its
/// pass, hands the activation on to the worker behind it and waits for that
/// one's result, and answers the sender.
pub open spec fn forward_through<T>(
    workers: Seq<WorkerView<T>>,
    at: int,
    input: TensorView,
    position: u64,
    range: BlockRange,
    passes: Seq<Pass<T>>,
) -> Outcome<T>
    decreases workers.len() - at,
{
    if at < 0 || at >= workers.len() {
        Outcome { workers, result: None, frames: 0 }
    } else {
        let asked = workers[at].step(
            WorkerEventView::Frame(forward_frame(input, position, range)),
        );
        let done = asked.0.step(
            WorkerEventView::Computed { output: passes[at].output, entries: passes[at].entries },
        );
        match done.1 {
            WorkerActionView::Reply(MessageView::ForwardResult { tensor }) => Outcome {
                workers: workers.update(at, done.0),
                result: Some(tensor),
                frames: 1,
            },
            WorkerActionView::Relay(MessageView::Forward { tensor, position: p, range: r }) => {
                let behind = forward_through(workers.update(at, done.0), at + 1, tensor, p, r, passes);
                match behind.result {
                    Some(answer) => {
                        let back = behind.workers[at].step(
                            WorkerEventView::HopReplied(
                                MessageView::ForwardResult { tensor: answer },
                            ),
                        );
                        Outcome {
                            workers: behind.workers.update(at, back.0),
                            result: match back.1 {
                                WorkerActionView::Reply(MessageView::ForwardResult { tensor }) => Some(
                                    tensor,
                                ),
                                _ => None,
                            },
                            frames: behind.frames + 1,
                        }
                    },
                    None => Outcome { frames: behind.frames + 1, ..behind },
                }
            },
            _ => Outcome { workers: workers.update(at, done.0), result: None, frames: 1 },
        }
    }
}

/// A `Terminate` reaches the worker at `at`, which hands it on to the worker
/// behind it where there is one. `frames` counts the workers it reached.
pub open spec fn terminate_through<T>(workers: Seq<WorkerView<T>>, at: int) -> Outcome<T>
    decreases workers.len() - at,
{
    if at < 0 || at >= workers.len() {
        Outcome { workers, result: None, frames: 0 }
    } else {
        let closed = workers[at].step(WorkerEventView::Frame(terminate_frame()));
        match closed.1 {
            WorkerActionView::Close { forward: Some(MessageView::Terminate), .. } => {
                let behind = terminate_through(workers.update(at, closed.0), at + 1);
                Outcome { frames: behind.frames + 1, ..behind }
            },
            _ => Outcome { workers: workers.update(at, closed.0), result: None, frames: 1 },
        }
    }
}

/// The worker at `i` hands on to the worker behind it, and the last one to
/// nobody.
pub open spec fn hands_on<T>(workers: Seq<WorkerView<T>>, i: int) -> bool {
    workers[i].next == if i + 1 < workers.len() {
        Some(workers[i + 1].range)
    } else {
        None
    }
}

/// From `at` on, every worker hands on to the worker behind it.
pub open spec fn is_linked<T>(workers: Seq<WorkerView<T>>, at: int) -> bool {
    forall|i: int| at <= i < workers.len() ==> #[trigger] hands_on(workers, i)
}

/// The worker serves, waits for a request, and has taken in `position`
/// tokens.
pub open spec fn stands_at<T>(w: WorkerView<T>, position: int) -> bool {
    &&& w.wf()
    &&& w.state == WorkerState::Serving
    &&& w.step == ServingStep::Request
    &&& w.cache.position == position
}

/// From `at` on, every worker stands at `position`.
pub open spec fn in_lock_step<T>(workers: Seq<WorkerView<T>>, at: int, position: int) -> bool {
    forall|i: int| at <= i < workers.len() ==> stands_at(#[trigger] workers[i], position)
}

/// Every pass leaves a tensor that travels and one cache entry for each
/// block of its worker.
pub open spec fn passes_fit<T>(workers: Seq<WorkerView<T>>, passes: Seq<Pass<T>>) -> bool {
    &&& passes.len() == workers.len()
    &&& forall|i: int|
        0 <= i < workers.len() ==> travels((#[trigger] passes[i]).output) && passes[i].entries.len()
            == workers[i].range.count()
}

/// The worker as it stands once it has taken in the token of `pass`.
pub open spec fn moved_on<T>(w: WorkerView<T>, pass: Pass<T>) -> WorkerView<T> {
    WorkerView { cache: w.cache.advanced(pass.entries), ..w }
}

/// One token through the chain from the worker at `at` on: when the workers
/// stand in lock step at `position`, the request for that position reaches
/// each of them once, each takes the token into its cache, and the activation
/// after the last block comes back to the sender unchanged. Afterwards the
/// workers stand in lock step at the next position.
pub proof fn lemma_forward_keeps_lock_step<T>(
    workers: Seq<WorkerView<T>>,
    at: int,
    input: TensorView,
    position: u64,
    passes: Seq<Pass<T>>,
)
    requires
        0 <= at < workers.len(),
        is_linked(workers, at),
        in_lock_step(workers, at, position as int),
        passes_fit(workers, passes),
        travels(input),
        position < u64::MAX,
    ensures
        ({
            let out = forward_through(workers, at, input, position, workers[at].range, passes);
            &&& out.workers.len() == workers.len()
            &&& out.result == Some(passes[workers.len() - 1].output)
            &&& out.frames == workers.len() - at
            &&& forall|i: int| 0 <= i < at ==> out.workers[i] == workers[i]
            &&& forall|i: int|
                at <= i < workers.len() ==> #[trigger] out.workers[i] == moved_on(
                    workers[i],
                    passes[i],
                )
            &&& in_lock_step(out.workers, at, position + 1)
            &&& is_linked(out.workers, at)
        }),
    decreases workers.len() - at,
{
    let w = workers[at];
    assert(stands_at(w, position as int));
    assert(hands_on(workers, at));
    assert(travels(passes[at].output) && passes[at].entries.len() == w.range.count());
    lemma_worker_takes_forward(w, input, passes[at].output, passes[at].entries);
    let asked = w.step(WorkerEventView::Frame(forward_frame(input, position, w.range)));
    let done = asked.0.step(
        WorkerEventView::Computed { output: passes[at].output, entries: passes[at].entries },
    );
    let out = forward_through(workers, at, input, position, w.range, passes);
    let next = workers.update(at, done.0);
    if at + 1 < workers.len() {
        assert forall|i: int| at + 1 <= i < next.len() implies #[trigger] hands_on(next, i) by {
            assert(hands_on(workers, i));
        }
        assert forall|i: int| at + 1 <= i < next.len() implies stands_at(
            #[trigger] next[i],
            position as int,
        ) by {
            assert(stands_at(workers[i], position as int));
        }
        assert forall|i: int| 0 <= i < next.len() implies travels((#[trigger] passes[i]).output)
            && passes[i].entries.len() == next[i].range.count() by {
            assert(passes[i].entries.len() == workers[i].range.count());
        }
        lemma_forward_keeps_lock_step(next, at + 1, passes[at].output, position, passes);
        let behind = forward_through(
            next,
            at + 1,
            passes[at].output,
            position,
            next[at + 1].range,
            passes,
        );
        assert(behind.workers[at] == done.0);
        lemma_worker_hands_back(done.0, passes[workers.len() - 1].output);
        assert(out.workers == behind.workers.update(at, moved_on(w, passes[at])));
        assert forall|i: int| at <= i < workers.len() implies #[trigger] out.workers[i]
            == moved_on(workers[i], passes[i]) by {
            if i > at {
                assert(behind.workers[i] == moved_on(next[i], passes[i]));
            }
        }
    } else {
        assert(out.workers == workers.update(at, moved_on(w, passes[at])));
    }
    assert forall|i: int| at <= i < workers.len() implies stands_at(
        #[trigger] out.workers[i],
        position + 1,
    ) by {
        assert(out.workers[i] == moved_on(workers[i], passes[i]));
        assert(stands_at(workers[i], position as int));
        assert(passes[i].entries.len() == workers[i].range.count());
    }
    assert forall|i: int| at <= i < workers.len() implies #[trigger] hands_on(out.workers, i) by {
        assert(hands_on(workers, i));
        assert(out.workers[i] == moved_on(workers[i], passes[i]));
        if i + 1 < workers.len() {
            assert(out.workers[i + 1] == moved_on(workers[i + 1], passes[i + 1]));
        }
    }
}

/// The worker serves and waits for a request.
pub open spec fn is_waiting<T>(w: WorkerView<T>) -> bool {
    w.state == WorkerState::Serving && w.step == ServingStep::Request
}

/// The worker as it stands once a `Terminate` has ended its session.
pub open spec fn wound_down<T>(w: WorkerView<T>) -> WorkerView<T> {
    WorkerView { state: WorkerState::Terminated, cache: w.cache.cleared(), ..w }
}

/// A `Terminate` that reaches the worker at `at` reaches every worker from
/// there on exactly once, whatever their caches hold: afterwards each of them
/// has ended its session with an empty cache.
pub proof fn lemma_terminate_reaches_every_worker<T>(workers: Seq<WorkerView<T>>, at: int)
    requires
        0 <= at < workers.len(),
        is_linked(workers, at),
        forall|i: int| at <= i < workers.len() ==> is_waiting(#[trigger] workers[i]),
    ensures
        ({
            let out = terminate_through(workers, at);
            &&& out.workers.len() == workers.len()
            &&& out.frames == workers.len() - at
            &&& forall|i: int| 0 <= i < at ==> out.workers[i] == workers[i]
            &&& forall|i: int|
                at <= i < workers.len() ==> #[trigger] out.workers[i] == wound_down(workers[i])
        }),
    decreases workers.len() - at,
{
    let w = workers[at];
    assert(is_waiting(w));
    assert(hands_on(workers, at));
    lemma_worker_takes_terminate(w);
    let closed = w.step(WorkerEventView::Frame(terminate_frame()));
    let out = terminate_through(workers, at);
    let next = workers.update(at, closed.0);
    if at + 1 < workers.len() {
        assert forall|i: int| at + 1 <= i < next.len() implies #[trigger] hands_on(next, i) by {
            assert(hands_on(workers, i));
        }
        assert forall|i: int| at + 1 <= i < next.len() implies is_waiting(#[trigger] next[i]) by {
            assert(is_waiting(workers[i]));
        }
        lemma_terminate_reaches_every_worker(next, at + 1);
        let behind = terminate_through(next, at + 1);
        assert(out.workers == behind.workers);
        assert forall|i: int| at <= i < workers.len() implies #[trigger] out.workers[i]
            == wound_down(workers[i]) by {
            if i > at {
                assert(behind.workers[i] == wound_down(next[i]));
            }
        }
    }
}

/// The workers of a topology, one for each node, in chain order.
pub open spec fn workers_of<T>(topology: TopologyView) -> Seq<WorkerView<T>> {
    Seq::new(topology.nodes.len(), |i: int| worker_at::<T>(topology, i))
}

/// The workers as they stand once each has accepted a peer whose `Hello`
/// carries the local digest.
pub open spec fn greeted<T>(workers: Seq<WorkerView<T>>) -> Seq<WorkerView<T>> {
    Seq::new(
        workers.len(),
        |i: int|
            workers[i].step(WorkerEventView::Accepted).0.step(
                WorkerEventView::Frame(hello_frame(workers[i].digest)),
            ).0,
    )
}

/// The workers of a topology form a chain of their own: each hands on to the
/// worker of the node behind it, all greet with the same digest, and once
/// greeted they stand in lock step at position 0.
pub proof fn lemma_workers_of_topology_are_linked<T>(topology: TopologyView)
    ensures
        is_linked(workers_of::<T>(topology), 0),
        is_linked(greeted(workers_of::<T>(topology)), 0),
        in_lock_step(greeted(workers_of::<T>(topology)), 0, 0),
        forall|i: int|
            0 <= i < topology.nodes.len() ==> (#[trigger] workers_of::<T>(topology)[i]).digest
                == topology.digest() && workers_of::<T>(topology)[i].range == topology.ranges()[i],
{
    let workers = workers_of::<T>(topology);
    let ready = greeted(workers);
    assert forall|i: int| 0 <= i < workers.len() implies #[trigger] hands_on(workers, i) by {}
    assert forall|i: int| 0 <= i < ready.len() implies stands_at(#[trigger] ready[i], 0)
        && ready[i].range == workers[i].range && ready[i].next == workers[i].next by {
        lemma_frame_roundtrip(MessageView::Hello { digest: workers[i].digest });
    }
    assert forall|i: int| 0 <= i < ready.len() implies #[trigger] hands_on(ready, i) by {
        assert(hands_on(workers, i));
        assert(stands_at(ready[i], 0));
        if i + 1 < ready.len() {
            assert(stands_at(ready[i + 1], 0));
        }
    }
}

} // verus!
