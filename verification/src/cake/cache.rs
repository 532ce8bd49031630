//! The key/value cache of one node: one entry for each block the node owns,
//! grown by one sequence position with every token.

use vstd::prelude::*;
use crate::cake::topology::BlockRange;

verus! {

/// Why a cache refused to take the entries of a forward pass.
#[derive(Clone, Copy, Debug, PartialEq, Eq)]
pub enum CacheError {
    /// There is not exactly one entry for each owned block.
    WrongBlockCount,
    /// The position counter cannot grow any further.
    Full,
}

/// What a cache is: the blocks it serves, how many tokens it has taken in,
/// and the entry of each block, in block order.
pub struct CacheView<T> {
    pub range: BlockRange,
    pub position: u64,
    pub entries: Seq<T>,
}

impl<T> CacheView<T> {
    /// Before the first token the cache holds nothing; after it, one entry
    /// for each owned block.
    pub open spec fn wf(self) -> bool {
        if self.position == 0 {
            self.entries.len() == 0
        } else {
            self.entries.len() == self.range.count()
        }
    }

    /// The empty cache over the same blocks.
    pub open spec fn cleared(self) -> CacheView<T> {
        CacheView { range: self.range, position: 0, entries: Seq::empty() }
    }

    /// Whether the cache can take `entries` as the state after one more token.
    pub open spec fn accepts(self, entries: Seq<T>) -> bool {
        entries.len() == self.range.count() && self.position < u64::MAX
    }

    /// The cache after one more token, whose forward pass left `entries`.
    pub open spec fn advanced(self, entries: Seq<T>) -> CacheView<T> {
        CacheView { range: self.range, position: (self.position + 1) as u64, entries }
    }

    /// The cache after the forward passes that left `steps`, one after the
    /// other. A pass that the cache does not accept leaves it unchanged.
    pub open spec fn after(self, steps: Seq<Seq<T>>) -> CacheView<T>
        decreases steps.len(),
    {
        if steps.len() == 0 {
            self
        } else {
            let before = self.after(steps.drop_last());
            if before.accepts(steps.last()) {
                before.advanced(steps.last())
            } else {
                before
            }
        }
    }
}

/// After `k` accepted forward passes on an empty cache the position counter
/// is `k`, and clearing the cache sets it back to 0.
pub proof fn lemma_position_counts_tokens<T>(start: CacheView<T>, steps: Seq<Seq<T>>)
    requires
        start.position == 0,
        steps.len() <= u64::MAX,
        forall|i: int| 0 <= i < steps.len() ==> (#[trigger] steps[i]).len() == start.range.count(),
    ensures
        start.after(steps).position == steps.len(),
        start.after(steps).range == start.range,
        start.after(steps).cleared().position == 0,
    decreases steps.len(),
{
    if steps.len() > 0 {
        let init = steps.drop_last();
        assert forall|i: int| 0 <= i < init.len() implies (#[trigger] init[i]).len()
            == start.range.count() by {
            assert(init[i] == steps[i]);
        }
        lemma_position_counts_tokens(start, init);
    }
}

/// The cache of the blocks a node owns. `T` is whatever the tensor engine
/// keeps for one block: its keys and values up to the current position.
#[derive(Debug)]
pub struct Cache<T> {
    range: BlockRange,
    position: u64,
    entries: Vec<T>,
}

impl<T> View for Cache<T> {
    type V = CacheView<T>;

    closed spec fn view(&self) -> CacheView<T> {
        CacheView { range: self.range, position: self.position, entries: self.entries@ }
    }
}

impl<T> Cache<T> {
    #[verifier::type_invariant]
    pub open spec fn inv(&self) -> bool {
        self@.wf()
    }

    /// An empty cache for the blocks of `range`.
    pub fn new(range: BlockRange) -> (cache: Cache<T>)
        ensures
            cache@ == (CacheView::<T> { range, position: 0, entries: Seq::empty() }),
    {
        Cache { range, position: 0, entries: Vec::new() }
    }

    /// The blocks that the cache serves.
    pub fn range(&self) -> (r: BlockRange)
        ensures
            r == self@.range,
    {
        self.range
    }

    /// Number of tokens that the cache has taken in since it was last empty.
    pub fn position(&self) -> (p: u64)
        ensures
            p == self@.position,
            self@.wf(),
    {
        proof {
            use_type_invariant(self);
        }
        self.position
    }

    /// The entry of `block`, once a token has been taken in.
    pub fn get(&self, block: u64) -> (r: Option<&T>)
        ensures
            self@.wf(),
            r is Some <==> self@.position > 0 && self@.range.covers(block as int),
            r matches Some(e) ==> *e == self@.entries[block - self@.range.first],
    {
        proof {
            use_type_invariant(self);
        }
        if self.position > 0 && self.range.contains(block) {
            let _ = self.entries.len();
            Some(&self.entries[(block - self.range.first) as usize])
        } else {
            None
        }
    }

    /// Empties the cache for a new session.
    pub fn reset(&mut self)
        ensures
            final(self)@ == old(self)@.cleared(),
    {
        *self = Cache { range: self.range, position: 0, entries: Vec::new() };
    }

    /// Takes in the entries that the forward pass of one more token left, one
    /// for each owned block in block order, and counts the token. Anything
    /// else is refused and leaves the cache as it was.
    pub fn commit(&mut self, entries: Vec<T>) -> (r: Result<(), CacheError>)
        ensures
            old(self)@.accepts(entries@) ==> r is Ok && final(self)@ == old(self)@.advanced(entries@),
            !old(self)@.accepts(entries@) ==> r is Err && final(self)@ == old(self)@,
            r matches Err(e) ==> e == if entries@.len() != old(self)@.range.count() {
                CacheError::WrongBlockCount
            } else {
                CacheError::Full
            },
    {
        if !self.range.has_count(entries.len()) {
            return Err(CacheError::WrongBlockCount);
        }
        if self.position == u64::MAX {
            return Err(CacheError::Full);
        }
        *self = Cache { range: self.range, position: self.position + 1, entries };
        Ok(())
    }
}

} // verus!
