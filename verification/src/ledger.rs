use vstd::prelude::*;

use crate::symbol_map::SymbolMap;

verus! {

/// Whether a quote for `symbol` seen at chain height `current_height` may
/// replace the positions for that symbol: positions are replaced at most once
/// per block, so the height must be above the one of the last replacement.
pub open spec fn may_update(last: Map<Seq<char>, u64>, symbol: Seq<char>, current_height: u64) -> bool {
    !last.contains_key(symbol) || current_height > last[symbol]
}

/// For each symbol, the chain height at which its positions were last replaced.
pub struct UpdateLedger {
    last_updated_height: SymbolMap<u64>,
}

impl View for UpdateLedger {
    type V = Map<Seq<char>, u64>;

    closed spec fn view(&self) -> Map<Seq<char>, u64> {
        self.last_updated_height@
    }
}

impl UpdateLedger {
    /// A ledger in which no symbol has been updated yet.
    pub fn new() -> (l: Self)
        ensures
            l@ == Map::<Seq<char>, u64>::empty(),
    {
        UpdateLedger { last_updated_height: SymbolMap::new() }
    }

    /// The height at which `symbol` was last updated, if it ever was.
    pub fn last_updated(&self, symbol: &String) -> (r: Option<u64>)
        ensures
            r == self@.get(symbol@),
    {
        match self.last_updated_height.get(symbol) {
            Some(h) => Some(*h),
            None => None,
        }
    }

    /// Whether the positions for `symbol` may be replaced at `current_height`.
    pub fn should_update(&self, symbol: &String, current_height: u64) -> (r: bool)
        ensures
            r == may_update(self@, symbol@, current_height),
    {
        match self.last_updated_height.get(symbol) {
            Some(h) => current_height > *h,
            None => true,
        }
    }

    /// Notes that the positions for `symbol` were replaced at `height`.
    pub fn record_update(&mut self, symbol: String, height: u64)
        ensures
            final(self)@ == old(self)@.insert(symbol@, height),
    {
        self.last_updated_height.insert(symbol, height);
    }
}

/// Once a symbol has been updated at some height, it is not updated again at
/// that height or any lower one.
pub proof fn lemma_at_most_once_per_block(last: Map<Seq<char>, u64>, symbol: Seq<char>, height: u64, later: u64)
    requires
        later <= height,
    ensures
        !may_update(last.insert(symbol, height), symbol, later),
{
}

/// After an update at some height, the symbol may be updated again at any
/// greater height.
pub proof fn lemma_next_block_allowed(last: Map<Seq<char>, u64>, symbol: Seq<char>, height: u64, later: u64)
    requires
        later > height,
    ensures
        may_update(last.insert(symbol, height), symbol, later),
{
}

/// Updating one symbol leaves the decision for every other symbol as it was.
pub proof fn lemma_other_symbols_unaffected(
    last: Map<Seq<char>, u64>,
    symbol: Seq<char>,
    height: u64,
    other: Seq<char>,
    at: u64,
)
    requires
        other != symbol,
    ensures
        may_update(last.insert(symbol, height), other, at) == may_update(last, other, at),
{
}

/// A symbol that was never updated may be updated at any height.
pub proof fn lemma_fresh_symbol_allowed(symbol: Seq<char>, at: u64)
    ensures
        may_update(Map::<Seq<char>, u64>::empty(), symbol, at),
{
}

} // verus!
