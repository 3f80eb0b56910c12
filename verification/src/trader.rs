use vstd::prelude::*;

use crate::ledger::{UpdateLedger, may_update};
use crate::market::{MarketDenoms, market_denoms_of, market_for_symbol};

verus! {

/// What the trader does with a new quote for a symbol.
pub enum QuoteStep {
    /// The symbol's positions were already replaced in this block.
    Skip,
    /// Replace the positions in this market.
    Replicate(MarketDenoms),
    /// The symbol has no market to replicate it into.
    UnknownSymbol,
}

/// Decides what a new quote for `symbol` at chain height `current_height`
/// leads to: nothing when the symbol was already handled at this height or a
/// later one, else the market whose positions are to be replaced.
pub fn decide_quote(ledger: &UpdateLedger, symbol: &String, current_height: u64) -> (r: QuoteStep)
    ensures
        !may_update(ledger@, symbol@, current_height) ==> r is Skip,
        may_update(ledger@, symbol@, current_height) ==> match r {
            QuoteStep::Replicate(m) => market_denoms_of(symbol@) == Some((m.start@, m.end@)),
            QuoteStep::UnknownSymbol => market_denoms_of(symbol@) is None,
            QuoteStep::Skip => false,
        },
{
    if !ledger.should_update(symbol, current_height) {
        return QuoteStep::Skip;
    }
    match market_for_symbol(symbol) {
        Some(m) => QuoteStep::Replicate(m),
        None => QuoteStep::UnknownSymbol,
    }
}

/// Notes the outcome of submitting the plan for `symbol` at `height`: a
/// submitted plan counts as this block's update; a failed one does not, so
/// that the next quote tries again.
pub fn plan_submitted(ledger: &mut UpdateLedger, symbol: String, height: u64, submitted: bool)
    ensures
        submitted ==> final(ledger)@ == old(ledger)@.insert(symbol@, height),
        !submitted ==> final(ledger)@ == old(ledger)@,
{
    if submitted {
        ledger.record_update(symbol, height);
    }
}

} // verus!
