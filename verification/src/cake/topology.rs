//! The static assignment of block ranges to nodes, in chain order.

use vstd::prelude::*;

verus! {

/// Kind of compute device a node runs its blocks on.
#[derive(Clone, Copy, Debug, PartialEq, Eq)]
pub enum DeviceKind {
    Cpu,
    Cuda,
    Metal,
}

/// A contiguous interval of block indices, both ends included.
#[derive(Clone, Copy, Debug, PartialEq, Eq)]
pub struct BlockRange {
    pub first: u64,
    pub last: u64,
}

impl BlockRange {
    /// Whether block `b` lies in the range.
    pub open spec fn covers(self, b: int) -> bool {
        self.first <= b <= self.last
    }

    /// The blocks of the range.
    pub open spec fn blocks(self) -> Set<int> {
        Set::new(|b: int| self.covers(b))
    }

    /// Number of blocks in the range; a range that ends before it starts has
    /// none.
    pub open spec fn count(self) -> nat {
        if self.first <= self.last {
            (self.last - self.first + 1) as nat
        } else {
            0
        }
    }

    /// Whether the range holds exactly `n` blocks.
    pub fn has_count(&self, n: usize) -> (b: bool)
        ensures
            b == (n == self.count()),
    {
        if self.first <= self.last {
            n > 0 && (n - 1) as u64 == self.last - self.first
        } else {
            n == 0
        }
    }

    /// Whether block `block` lies in the range.
    pub fn contains(&self, block: u64) -> (b: bool)
        ensures
            b == self.covers(block as int),
    {
        self.first <= block && block <= self.last
    }
}

/// One node of the chain: where to reach it, what it owns, what it runs on.
#[derive(Debug, PartialEq, Eq)]
pub struct Node {
    pub address: String,
    pub range: BlockRange,
    pub device: DeviceKind,
}

impl Clone for Node {
    fn clone(&self) -> (copy: Self)
        ensures
            copy == *self,
    {
        Node { address: self.address.clone(), range: self.range, device: self.device }
    }
}

/// Why a configuration was refused.
#[derive(Clone, Copy, Debug, PartialEq, Eq)]
pub enum ConfigError {
    /// The element type is none of `f16`, `bf16`, `f32`.
    UnsupportedDType,
    /// The local address names no node of the topology.
    UnknownNode,
    /// The node's range ends before it starts.
    InvertedRange { node: usize },
    /// The node's range reaches past the last block of the model.
    OutOfRange { node: usize },
    /// The node's range starts inside what earlier nodes already own.
    Overlap { node: usize },
    /// Blocks between the earlier nodes' ranges and this node's are owned by
    /// nobody.
    Gap { node: usize },
    /// The chain ends after `covered` blocks, short of the model.
    Incomplete { covered: u64 },
}

/// The ranges of the nodes, in chain order.
pub open spec fn ranges_of(nodes: Seq<Node>) -> Seq<BlockRange> {
    Seq::new(nodes.len(), |i: int| nodes[i].range)
}

/// The block at which the range at `position` has to start: the first block
/// that no earlier node owns.
pub open spec fn expected_first(ranges: Seq<BlockRange>, position: int) -> int {
    if position <= 0 {
        0
    } else {
        ranges[position - 1].last + 1
    }
}

/// The range at `position` is not empty and starts where the ranges before
/// it end.
pub open spec fn continues_chain(ranges: Seq<BlockRange>, position: int) -> bool {
    &&& ranges[position].first <= ranges[position].last
    &&& ranges[position].first == expected_first(ranges, position)
}

/// The ranges, taken in order, walk through `[0, total)` without a gap and
/// without an overlap.
pub open spec fn is_chain(ranges: Seq<BlockRange>, total: nat) -> bool {
    &&& forall|i: int| 0 <= i < ranges.len() ==> #[trigger] continues_chain(ranges, i)
    &&& expected_first(ranges, ranges.len() as int) == total
}

/// Every range ends before any later one starts.
pub open spec fn is_ascending(ranges: Seq<BlockRange>) -> bool {
    forall|i: int, j: int|
        0 <= i < j < ranges.len() ==> (#[trigger] ranges[i]).last < (#[trigger] ranges[j]).first
}

/// What is wrong with the range at `position`, given the ranges before it.
pub open spec fn fault_at(ranges: Seq<BlockRange>, total: nat, position: int) -> Option<
    ConfigError,
> {
    let r = ranges[position];
    if r.first > r.last {
        Some(ConfigError::InvertedRange { node: position as usize })
    } else if r.last >= total {
        Some(ConfigError::OutOfRange { node: position as usize })
    } else if r.first < expected_first(ranges, position) {
        Some(ConfigError::Overlap { node: position as usize })
    } else if r.first > expected_first(ranges, position) {
        Some(ConfigError::Gap { node: position as usize })
    } else {
        None
    }
}

/// `e` is the first thing wrong with the ranges: the fault of the first
/// faulty node, or, with every node sound, the chain's early end.
pub open spec fn is_first_fault(ranges: Seq<BlockRange>, total: nat, e: ConfigError) -> bool {
    ||| exists|i: int|
        {
            &&& 0 <= i < ranges.len()
            &&& #[trigger] fault_at(ranges, total, i) == Some(e)
            &&& forall|j: int| 0 <= j < i ==> (#[trigger] fault_at(ranges, total, j)) is None
        }
    ||| {
        &&& forall|j: int| 0 <= j < ranges.len() ==> (#[trigger] fault_at(ranges, total, j)) is None
        &&& expected_first(ranges, ranges.len() as int) < total
        &&& e == ConfigError::Incomplete { covered: expected_first(ranges, ranges.len() as int) as u64 }
    }
}

/// The blocks that some range owns.
pub open spec fn covered(ranges: Seq<BlockRange>) -> Set<int> {
    Set::new(|b: int| exists|i: int| 0 <= i < ranges.len() && (#[trigger] ranges[i]).covers(b))
}

/// In a chain, a range ends before any later one starts.
pub proof fn lemma_chain_ordered(ranges: Seq<BlockRange>, total: nat, i: int, j: int)
    requires
        is_chain(ranges, total),
        0 <= i < j < ranges.len(),
    ensures
        ranges[i].last < ranges[j].first,
    decreases j - i,
{
    assert(continues_chain(ranges, j));
    if i + 1 < j {
        lemma_chain_ordered(ranges, total, i, j - 1);
        assert(continues_chain(ranges, j - 1));
    }
}

/// Every range of a chain lies inside `[0, total)`.
pub proof fn lemma_chain_in_bounds(ranges: Seq<BlockRange>, total: nat, i: int)
    requires
        is_chain(ranges, total),
        0 <= i < ranges.len(),
    ensures
        ranges[i].first <= ranges[i].last < total,
{
    let n = ranges.len() as int;
    assert(continues_chain(ranges, i));
    assert(continues_chain(ranges, n - 1));
    if i < n - 1 {
        lemma_chain_ordered(ranges, total, i, n - 1);
    }
}

/// Every block below the end of the first `n` ranges of a chain has an owner
/// among them.
proof fn lemma_chain_covers(ranges: Seq<BlockRange>, total: nat, n: int, b: int)
    requires
        is_chain(ranges, total),
        0 <= n <= ranges.len(),
        0 <= b < expected_first(ranges, n),
    ensures
        exists|i: int| 0 <= i < n && (#[trigger] ranges[i]).covers(b),
    decreases n,
{
    if n > 0 {
        assert(continues_chain(ranges, n - 1));
        if b >= ranges[n - 1].first {
            assert(ranges[n - 1].covers(b));
        } else {
            lemma_chain_covers(ranges, total, n - 1, b);
        }
    }
}

/// The ranges of a chain partition `[0, total)`: none is empty, together they
/// own exactly the blocks of `[0, total)`, and no block has two owners.
pub proof fn lemma_chain_partitions(ranges: Seq<BlockRange>, total: nat)
    requires
        is_chain(ranges, total),
    ensures
        covered(ranges) == Set::new(|b: int| 0 <= b < total),
        forall|i: int, j: int, b: int|
            #![trigger ranges[i].covers(b), ranges[j].covers(b)]
            0 <= i < ranges.len() && 0 <= j < ranges.len() && ranges[i].covers(b) && ranges[j].covers(
                b,
            ) ==> i == j,
        forall|i: int| 0 <= i < ranges.len() ==> (#[trigger] ranges[i]).first <= ranges[i].last,
        is_ascending(ranges),
{
    assert forall|b: int| covered(ranges).contains(b) <==> 0 <= b < total by {
        if covered(ranges).contains(b) {
            let i = choose|i: int| 0 <= i < ranges.len() && (#[trigger] ranges[i]).covers(b);
            lemma_chain_in_bounds(ranges, total, i);
        }
        if 0 <= b < total {
            lemma_chain_covers(ranges, total, ranges.len() as int, b);
        }
    }
    assert(covered(ranges) =~= Set::new(|b: int| 0 <= b < total));
    assert forall|i: int, j: int| 0 <= i < j < ranges.len() implies (#[trigger] ranges[i]).last < (
    #[trigger] ranges[j]).first by {
        lemma_chain_ordered(ranges, total, i, j);
    }
    assert forall|i: int| 0 <= i < ranges.len() implies (#[trigger] ranges[i]).first
        <= ranges[i].last by {
        assert(continues_chain(ranges, i));
    }
}

/// Ranges that are each non-empty, stand in ascending order and together own
/// exactly the blocks of `[0, total)` form a chain.
pub proof fn lemma_partition_is_chain(ranges: Seq<BlockRange>, total: nat)
    requires
        forall|i: int| 0 <= i < ranges.len() ==> (#[trigger] ranges[i]).first <= ranges[i].last,
        is_ascending(ranges),
        covered(ranges) == Set::new(|b: int| 0 <= b < total),
    ensures
        is_chain(ranges, total),
{
    let all = Set::new(|b: int| 0 <= b < total);
    let n = ranges.len() as int;
    assert forall|i: int| 0 <= i < n implies #[trigger] continues_chain(ranges, i) by {
        let want = expected_first(ranges, i);
        let have = ranges[i].first as int;
        assert(ranges[i].covers(have));
        assert(covered(ranges).contains(have));
        assert(all.contains(have));
        if i > 0 {
            assert(ranges[i - 1].last < ranges[i].first);
        }
        if want < have {
            assert(all.contains(want));
            assert(covered(ranges).contains(want));
            let k = choose|k: int| 0 <= k < n && (#[trigger] ranges[k]).covers(want);
            if k < i - 1 {
                assert(ranges[k].last < ranges[i - 1].first);
                assert(ranges[i - 1].first <= ranges[i - 1].last);
            } else if k > i {
                assert(ranges[i].last < ranges[k].first);
            }
            assert(false);
        }
    }
    let end = expected_first(ranges, n);
    if n > 0 {
        let top = ranges[n - 1].last as int;
        assert(ranges[n - 1].covers(top));
        assert(covered(ranges).contains(top));
        assert(all.contains(top));
    }
    if end < total {
        assert(all.contains(end));
        assert(covered(ranges).contains(end));
        let k = choose|k: int| 0 <= k < n && (#[trigger] ranges[k]).covers(end);
        if k < n - 1 {
            assert(ranges[k].last < ranges[n - 1].first);
            assert(ranges[n - 1].first <= ranges[n - 1].last);
        }
        assert(false);
    }
}

/// The first fault is well defined: ranges that form no chain have one, ranges
/// that form a chain have none, and no ranges have two.
pub proof fn lemma_first_fault_is_unique(
    ranges: Seq<BlockRange>,
    total: nat,
    e1: ConfigError,
    e2: ConfigError,
)
    requires
        ranges.len() <= usize::MAX,
        total <= u64::MAX,
    ensures
        is_first_fault(ranges, total, e1) ==> !is_chain(ranges, total),
        is_first_fault(ranges, total, e1) && is_first_fault(ranges, total, e2) ==> e1 == e2,
        !is_chain(ranges, total) ==> exists|e: ConfigError| is_first_fault(ranges, total, e),
{
    let n = ranges.len() as int;
    if is_first_fault(ranges, total, e1) {
        if is_chain(ranges, total) {
            assert forall|j: int| 0 <= j < n implies (#[trigger] fault_at(ranges, total, j))
                is None by {
                lemma_chain_in_bounds(ranges, total, j);
                assert(continues_chain(ranges, j));
            }
        }
    }
    if is_first_fault(ranges, total, e1) && is_first_fault(ranges, total, e2) {
        let sound = forall|j: int| 0 <= j < n ==> (#[trigger] fault_at(ranges, total, j)) is None;
        if !sound {
            let i1 = choose|i: int|
                {
                    &&& 0 <= i < n
                    &&& #[trigger] fault_at(ranges, total, i) == Some(e1)
                    &&& forall|j: int| 0 <= j < i ==> (#[trigger] fault_at(ranges, total, j)) is None
                };
            let i2 = choose|i: int|
                {
                    &&& 0 <= i < n
                    &&& #[trigger] fault_at(ranges, total, i) == Some(e2)
                    &&& forall|j: int| 0 <= j < i ==> (#[trigger] fault_at(ranges, total, j)) is None
                };
            assert(i1 == i2);
        }
    }
    if !is_chain(ranges, total) {
        lemma_first_fault_exists(ranges, total, 0);
    }
}

/// With the ranges before `from` sound, ranges that form no chain have a
/// first fault.
proof fn lemma_first_fault_exists(ranges: Seq<BlockRange>, total: nat, from: int)
    requires
        ranges.len() <= usize::MAX,
        total <= u64::MAX,
        0 <= from <= ranges.len(),
        forall|j: int| 0 <= j < from ==> (#[trigger] fault_at(ranges, total, j)) is None,
        !is_chain(ranges, total),
    ensures
        exists|e: ConfigError| is_first_fault(ranges, total, e),
    decreases ranges.len() - from,
{
    let n = ranges.len() as int;
    if from == n {
        let end = expected_first(ranges, n);
        if end == total {
            assert forall|j: int| 0 <= j < n implies #[trigger] continues_chain(ranges, j) by {
                assert(fault_at(ranges, total, j) is None);
            }
        }
        if n > 0 {
            assert(fault_at(ranges, total, n - 1) is None);
        }
        assert(is_first_fault(ranges, total, ConfigError::Incomplete { covered: end as u64 }));
    } else {
        match fault_at(ranges, total, from) {
            Some(e) => {
                assert(is_first_fault(ranges, total, e));
            },
            None => {
                lemma_first_fault_exists(ranges, total, from + 1);
            },
        }
    }
}

/// Checks that the nodes' ranges, in the order given, form a chain over
/// `total_blocks` blocks, and names the first fault if they do not.
pub fn validate(nodes: &Vec<Node>, total_blocks: u64) -> (r: Result<(), ConfigError>)
    ensures
        r is Ok <==> is_chain(ranges_of(nodes@), total_blocks as nat),
        r matches Err(e) ==> is_first_fault(ranges_of(nodes@), total_blocks as nat, e),
{
    let ghost ranges = ranges_of(nodes@);
    let ghost total = total_blocks as nat;
    let count = nodes.len();
    let mut next: u64 = 0;
    let mut i: usize = 0;
    while i < count
        invariant
            i <= count,
            count == nodes@.len(),
            ranges == ranges_of(nodes@),
            total == total_blocks as nat,
            next == expected_first(ranges, i as int),
            next <= total_blocks,
            forall|j: int| 0 <= j < i ==> (#[trigger] fault_at(ranges, total, j)) is None,
        decreases count - i,
    {
        let r = nodes[i].range;
        assert(r == ranges[i as int]);
        let fault = if r.first > r.last {
            Some(ConfigError::InvertedRange { node: i })
        } else if r.last >= total_blocks {
            Some(ConfigError::OutOfRange { node: i })
        } else if r.first < next {
            Some(ConfigError::Overlap { node: i })
        } else if r.first > next {
            Some(ConfigError::Gap { node: i })
        } else {
            None
        };
        assert(fault == fault_at(ranges, total, i as int));
        match fault {
            Some(e) => {
                proof {
                    if is_chain(ranges, total) {
                        lemma_chain_in_bounds(ranges, total, i as int);
                        assert(continues_chain(ranges, i as int));
                    }
                }
                return Err(e);
            },
            None => {},
        }
        next = r.last + 1;
        i = i + 1;
    }
    if next < total_blocks {
        return Err(ConfigError::Incomplete { covered: next });
    }
    proof {
        assert forall|j: int| 0 <= j < ranges.len() implies #[trigger] continues_chain(
            ranges,
            j,
        ) by {
            assert(fault_at(ranges, total, j) is None);
        }
    }
    Ok(())
}

/// Start value of the topology digest.
pub const DIGEST_SEED: u64 = 0xcbf2_9ce4_8422_2325;

/// Multiplier of the topology digest.
pub const DIGEST_PRIME: u64 = 0x0000_0100_0000_01b3;

/// One step of the digest: fold the number `x` into `h`.
pub open spec fn mix(h: u64, x: u64) -> u64 {
    (h ^ x).wrapping_mul(DIGEST_PRIME)
}

/// The digest of a block-range assignment: the block count, then both ends of
/// every range in chain order, folded into the seed.
pub open spec fn digest_of(ranges: Seq<BlockRange>, total: u64) -> u64
    decreases ranges.len(),
{
    if ranges.len() == 0 {
        mix(DIGEST_SEED, total)
    } else {
        mix(mix(digest_of(ranges.drop_last(), total), ranges.last().first), ranges.last().last)
    }
}

/// One step of the digest.
fn mix_into(h: u64, x: u64) -> (r: u64)
    ensures
        r == mix(h, x),
{
    (h ^ x).wrapping_mul(DIGEST_PRIME)
}

/// What a topology is: its nodes in chain order and the number of blocks of
/// the model they share.
pub struct TopologyView {
    pub nodes: Seq<Node>,
    pub total_blocks: u64,
}

impl TopologyView {
    /// The ranges of the nodes, in chain order.
    pub open spec fn ranges(self) -> Seq<BlockRange> {
        ranges_of(self.nodes)
    }

    /// The ranges form a chain over the model's blocks.
    pub open spec fn wf(self) -> bool {
        is_chain(self.ranges(), self.total_blocks as nat)
    }

    /// The digest that peers compare in the handshake.
    pub open spec fn digest(self) -> u64 {
        digest_of(self.ranges(), self.total_blocks)
    }
}

/// A validated topology. It is built once and only read afterwards; the order
/// of its nodes is the order in which an activation passes through them.
#[derive(Debug)]
pub struct Topology {
    nodes: Vec<Node>,
    total_blocks: u64,
}

impl View for Topology {
    type V = TopologyView;

    closed spec fn view(&self) -> TopologyView {
        TopologyView { nodes: self.nodes@, total_blocks: self.total_blocks }
    }
}

impl Topology {
    #[verifier::type_invariant]
    pub open spec fn inv(&self) -> bool {
        self@.wf()
    }

    /// The topology of `nodes` over a model of `total_blocks` blocks, refused
    /// with the first fault unless the nodes' ranges form a chain.
    pub fn new(nodes: Vec<Node>, total_blocks: u64) -> (r: Result<Topology, ConfigError>)
        ensures
            r is Ok <==> is_chain(ranges_of(nodes@), total_blocks as nat),
            r matches Ok(t) ==> t@.nodes == nodes@ && t@.total_blocks == total_blocks && t@.wf(),
            r matches Err(e) ==> is_first_fault(ranges_of(nodes@), total_blocks as nat, e),
    {
        match validate(&nodes, total_blocks) {
            Ok(()) => Ok(Topology { nodes, total_blocks }),
            Err(e) => Err(e),
        }
    }

    /// Number of nodes in the chain.
    pub fn len(&self) -> (n: usize)
        ensures
            n == self@.nodes.len(),
            self@.wf(),
    {
        proof {
            use_type_invariant(self);
        }
        self.nodes.len()
    }

    /// Number of blocks of the model.
    pub fn total_blocks(&self) -> (n: u64)
        ensures
            n == self@.total_blocks,
            self@.wf(),
    {
        proof {
            use_type_invariant(self);
        }
        self.total_blocks
    }

    /// The node at a chain position, if the chain is that long.
    pub fn node(&self, position: usize) -> (r: Option<&Node>)
        ensures
            r is Some <==> position < self@.nodes.len(),
            r matches Some(n) ==> *n == self@.nodes[position as int],
    {
        if position < self.nodes.len() {
            Some(&self.nodes[position])
        } else {
            None
        }
    }

    /// The block range that the node at a chain position owns.
    pub fn range_of(&self, position: usize) -> (r: Option<BlockRange>)
        ensures
            r is Some <==> position < self@.nodes.len(),
            r matches Some(range) ==> range == self@.ranges()[position as int]
                && range.first <= range.last < self@.total_blocks,
    {
        if position < self.nodes.len() {
            proof {
                use_type_invariant(self);
                lemma_chain_in_bounds(self@.ranges(), self@.total_blocks as nat, position as int);
            }
            Some(self.nodes[position].range)
        } else {
            None
        }
    }

    /// The address at which to reach the node at a chain position.
    pub fn address_of(&self, position: usize) -> (r: Option<String>)
        ensures
            r is Some <==> position < self@.nodes.len(),
            r matches Some(a) ==> a@ == self@.nodes[position as int].address@,
    {
        if position < self.nodes.len() {
            Some(self.nodes[position].address.clone())
        } else {
            None
        }
    }

    /// Whether the node at `position` is the last of the chain.
    pub fn is_last(&self, position: usize) -> (b: bool)
        ensures
            b == (position + 1 == self@.nodes.len()),
    {
        let n = self.nodes.len();
        n > 0 && position == n - 1
    }

    /// The chain position that follows `position`, unless the chain ends there.
    pub fn next_hop(&self, position: usize) -> (r: Option<usize>)
        ensures
            r is Some <==> position + 1 < self@.nodes.len(),
            r matches Some(next) ==> next == position + 1,
    {
        let n = self.nodes.len();
        if n > 0 && position < n - 1 {
            Some(position + 1)
        } else {
            None
        }
    }

    /// The chain position of the node that owns `block`; every block of the
    /// model has exactly one.
    pub fn owner_of(&self, block: u64) -> (r: Option<usize>)
        ensures
            r is Some <==> block < self@.total_blocks,
            r matches Some(i) ==> i < self@.nodes.len() && self@.ranges()[i as int].covers(
                block as int,
            ),
    {
        proof {
            use_type_invariant(self);
        }
        let ghost ranges = self@.ranges();
        let n = self.nodes.len();
        let mut i: usize = 0;
        while i < n
            invariant
                i <= n,
                n == self.nodes@.len(),
                ranges == ranges_of(self.nodes@),
                is_chain(ranges, self.total_blocks as nat),
                forall|j: int| 0 <= j < i ==> !(#[trigger] ranges[j]).covers(block as int),
            decreases n - i,
        {
            if self.nodes[i].range.contains(block) {
                proof {
                    lemma_chain_in_bounds(ranges, self.total_blocks as nat, i as int);
                }
                return Some(i);
            }
            i = i + 1;
        }
        proof {
            if block < self.total_blocks {
                lemma_chain_covers(ranges, self.total_blocks as nat, n as int, block as int);
            }
        }
        None
    }

    /// The chain position of the first node reached at `address`.
    pub fn position_of(&self, address: &str) -> (r: Option<usize>)
        ensures
            match r {
                Some(i) => i < self@.nodes.len() && self@.nodes[i as int].address@ == address@
                    && forall|j: int| 0 <= j < i ==> self@.nodes[j].address@ != address@,
                None => forall|j: int| 0 <= j < self@.nodes.len() ==> self@.nodes[j].address@ != address@,
            },
    {
        let wanted = address.to_owned();
        let n = self.nodes.len();
        let mut i: usize = 0;
        while i < n
            invariant
                i <= n,
                n == self.nodes@.len(),
                wanted@ == address@,
                forall|j: int| 0 <= j < i ==> self.nodes@[j].address@ != address@,
            decreases n - i,
        {
            if self.nodes[i].address == wanted {
                return Some(i);
            }
            i = i + 1;
        }
        None
    }

    /// The addresses of the nodes in chain order.
    pub fn chain(&self) -> (addresses: Vec<String>)
        ensures
            addresses@.len() == self@.nodes.len(),
            forall|i: int| 0 <= i < addresses@.len() ==> addresses@[i]@ == self@.nodes[i].address@,
    {
        let n = self.nodes.len();
        let mut addresses: Vec<String> = Vec::new();
        let mut i: usize = 0;
        while i < n
            invariant
                i <= n,
                n == self.nodes@.len(),
                addresses@.len() == i,
                forall|j: int| 0 <= j < i ==> addresses@[j]@ == self.nodes@[j].address@,
            decreases n - i,
        {
            addresses.push(self.nodes[i].address.clone());
            i = i + 1;
        }
        addresses
    }

    /// The digest of the block-range assignment. Two topologies with the
    /// same ranges over the same number of blocks have the same digest.
    pub fn digest(&self) -> (d: u64)
        ensures
            d == self@.digest(),
    {
        let ghost ranges = self@.ranges();
        let n = self.nodes.len();
        let mut d = mix_into(DIGEST_SEED, self.total_blocks);
        let mut i: usize = 0;
        proof {
            assert(ranges.take(0) =~= Seq::<BlockRange>::empty());
        }
        while i < n
            invariant
                i <= n,
                n == self.nodes@.len(),
                ranges == ranges_of(self.nodes@),
                d == digest_of(ranges.take(i as int), self.total_blocks),
            decreases n - i,
        {
            let r = self.nodes[i].range;
            proof {
                let next = ranges.take(i + 1);
                assert(next.drop_last() =~= ranges.take(i as int));
                assert(next.last() == r);
            }
            d = mix_into(mix_into(d, r.first), r.last);
            i = i + 1;
        }
        proof {
            assert(ranges.take(n as int) =~= ranges);
        }
        d
    }
}

} // verus!
