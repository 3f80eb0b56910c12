use vstd::prelude::*;

verus! {

/// An asset's identifier: the 32 bytes that the chain names it by.
#[derive(Clone, Copy)]
pub struct AssetId {
    pub bytes: [u8; 32],
}

/// Two asset identifiers name the same asset when their bytes agree.
pub open spec fn same_asset(a: AssetId, b: AssetId) -> bool {
    a.bytes@ == b.bytes@
}

/// Whether `a` and `b` name the same asset.
pub fn asset_eq(a: &AssetId, b: &AssetId) -> (r: bool)
    ensures
        r == same_asset(*a, *b),
{
    let mut i: usize = 0;
    while i < 32
        invariant
            i <= 32,
            a.bytes@.len() == 32,
            b.bytes@.len() == 32,
            forall|j: int| 0 <= j < i ==> a.bytes@[j] == b.bytes@[j],
        decreases 32 - i,
    {
        if a.bytes[i] != b.bytes[i] {
            return false;
        }
        i = i + 1;
    }
    assert(a.bytes@ =~= b.bytes@);
    true
}

/// Lifecycle of a liquidity position on the DEX.
#[derive(PartialEq, Eq, Structural, Clone, Copy)]
pub enum PositionState {
    Opened,
    Closed,
    Withdrawn,
    Claimed,
}

/// A liquidity position, as the rebalancing logic reads it.
pub struct PositionRecord {
    /// The caller's own number for the position, by which it finds the
    /// position again; carried through unchanged.
    pub handle: usize,
    /// The position's identifier in its textual form.
    pub id: String,
    /// The trading pair of the position, in the chain's canonical order.
    pub asset_1: AssetId,
    pub asset_2: AssetId,
    /// Reserves of `asset_1` and of `asset_2`.
    pub r1: u128,
    pub r2: u128,
    pub state: PositionState,
}

impl Clone for PositionRecord {
    fn clone(&self) -> (r: Self)
        ensures
            r == *self,
    {
        PositionRecord {
            handle: self.handle,
            id: self.id.clone(),
            asset_1: self.asset_1,
            asset_2: self.asset_2,
            r1: self.r1,
            r2: self.r2,
            state: self.state,
        }
    }
}

/// A directed market: the first asset prices the second one.
#[derive(Clone, Copy)]
pub struct Market {
    pub start: AssetId,
    pub end: AssetId,
}

/// Whether a position trades the two assets of `market`, in either order.
pub open spec fn trades_market(p: PositionRecord, market: Market) -> bool {
    (same_asset(p.asset_1, market.start) && same_asset(p.asset_2, market.end)) || (same_asset(
        p.asset_1,
        market.end,
    ) && same_asset(p.asset_2, market.start))
}

/// Whether a position trades the two assets of `market`, in either order.
pub fn position_trades_market(p: &PositionRecord, market: &Market) -> (r: bool)
    ensures
        r == trades_market(*p, *market),
        r == ((p.asset_1.bytes@ == market.start.bytes@ && p.asset_2.bytes@ == market.end.bytes@)
            || (p.asset_1.bytes@ == market.end.bytes@ && p.asset_2.bytes@ == market.start.bytes@)),
{
    (asset_eq(&p.asset_1, &market.start) && asset_eq(&p.asset_2, &market.end)) || (asset_eq(
        &p.asset_1,
        &market.end,
    ) && asset_eq(&p.asset_2, &market.start))
}

/// Whether a position is a closed one in `market`.
pub open spec fn closed_in(market: Market) -> spec_fn(PositionRecord) -> bool {
    |p: PositionRecord| trades_market(p, market) && p.state == PositionState::Closed
}

/// The closed positions in `market` (either direction), in their order.
pub fn closed_positions_in_market(positions: &Vec<PositionRecord>, market: &Market) -> (r: Vec<
    PositionRecord,
>)
    ensures
        r@ == positions@.filter(closed_in(*market)),
        forall|k: int|
            0 <= k < r@.len() ==> (#[trigger] r@[k]).state == PositionState::Closed && ((
            r@[k].asset_1.bytes@ == market.start.bytes@ && r@[k].asset_2.bytes@ == market.end.bytes@)
                || (r@[k].asset_1.bytes@ == market.end.bytes@ && r@[k].asset_2.bytes@
                == market.start.bytes@)),
{
    proof {
        lemma_closed_selection_exact(positions@, *market);
    }
    let mut out: Vec<PositionRecord> = Vec::new();
    let mut i: usize = 0;
    while i < positions.len()
        invariant
            i <= positions@.len(),
            out@ == positions@.take(i as int).filter(closed_in(*market)),
        decreases positions@.len() - i,
    {
        let p = &positions[i];
        proof {
            reveal(Seq::filter);
            assert(positions@.take(i + 1).drop_last() =~= positions@.take(i as int));
        }
        if position_trades_market(p, market) && p.state == PositionState::Closed {
            out.push(p.clone());
        }
        i = i + 1;
    }
    assert(positions@.take(positions@.len() as int) =~= positions@);
    out
}

/// A position trades a market exactly when its two assets are the market's
/// two assets, in one order or the other; a position holding any other asset
/// never does.
pub proof fn lemma_trades_market_iff_same_pair(p: PositionRecord, market: Market)
    ensures
        trades_market(p, market) <==> ((p.asset_1.bytes@ == market.start.bytes@
            && p.asset_2.bytes@ == market.end.bytes@) || (p.asset_1.bytes@ == market.end.bytes@
            && p.asset_2.bytes@ == market.start.bytes@)),
        (p.asset_1.bytes@ != market.start.bytes@ && p.asset_1.bytes@ != market.end.bytes@)
            ==> !trades_market(p, market),
        (p.asset_2.bytes@ != market.start.bytes@ && p.asset_2.bytes@ != market.end.bytes@)
            ==> !trades_market(p, market),
{
}

/// The closed positions selected for a market are exactly the closed
/// positions of the list whose pair is the market's pair, in either order:
/// each one selected is such a position of the list, and each such position
/// of the list is selected.
pub proof fn lemma_closed_selection_exact(positions: Seq<PositionRecord>, market: Market)
    ensures
        forall|k: int|
            0 <= k < positions.filter(closed_in(market)).len() ==> {
                let p = #[trigger] positions.filter(closed_in(market))[k];
                &&& p.state == PositionState::Closed
                &&& ((p.asset_1.bytes@ == market.start.bytes@ && p.asset_2.bytes@
                    == market.end.bytes@) || (p.asset_1.bytes@ == market.end.bytes@
                    && p.asset_2.bytes@ == market.start.bytes@))
                &&& positions.contains(p)
            },
        forall|i: int|
            0 <= i < positions.len() && (#[trigger] positions[i]).state == PositionState::Closed
                && ((positions[i].asset_1.bytes@ == market.start.bytes@
                && positions[i].asset_2.bytes@ == market.end.bytes@) || (
            positions[i].asset_1.bytes@ == market.end.bytes@ && positions[i].asset_2.bytes@
                == market.start.bytes@)) ==> positions.filter(closed_in(market)).contains(
                positions[i],
            ),
{
    let pred = closed_in(market);
    assert forall|k: int| 0 <= k < positions.filter(pred).len() implies positions.contains(
        #[trigger] positions.filter(pred)[k],
    ) by {
        lemma_filter_element_in(positions, pred, k);
    }
    assert forall|k: int| 0 <= k < positions.filter(pred).len() implies pred(
        #[trigger] positions.filter(pred)[k],
    ) by {
        positions.lemma_filter_pred(pred, k);
    }
    assert forall|i: int|
        0 <= i < positions.len() && pred(#[trigger] positions[i]) implies positions.filter(
        pred,
    ).contains(positions[i]) by {
        positions.lemma_filter_contains(pred, i);
    }
}

proof fn lemma_filter_element_in(s: Seq<PositionRecord>, pred: spec_fn(PositionRecord) -> bool, k: int)
    requires
        0 <= k < s.filter(pred).len(),
    ensures
        s.contains(s.filter(pred)[k]),
    decreases s.len(),
{
    reveal(Seq::filter);
    if s.len() > 0 {
        let init = s.drop_last();
        if k < init.filter(pred).len() {
            lemma_filter_element_in(init, pred, k);
            let j = choose|j: int| 0 <= j < init.len() && init[j] == init.filter(pred)[k];
            assert(s[j] == init[j]);
        } else {
            assert(s[s.len() - 1] == s.filter(pred)[k]);
        }
    }
}

/// Whether some position in `ps` has the identifier `id`.
pub open spec fn has_id(ps: Seq<PositionRecord>, id: Seq<char>) -> bool {
    exists|j: int| 0 <= j < ps.len() && ps[j].id@ == id
}

/// `ps` without the positions whose identifier occurred earlier in it: the
/// first position with each identifier, in their order.
pub open spec fn first_of_each_id(ps: Seq<PositionRecord>) -> Seq<PositionRecord>
    decreases ps.len(),
{
    if ps.len() == 0 {
        ps
    } else {
        let rest = first_of_each_id(ps.drop_last());
        if has_id(rest, ps.last().id@) {
            rest
        } else {
            rest.push(ps.last())
        }
    }
}

/// No two positions in `ps` share an identifier.
pub open spec fn ids_distinct(ps: Seq<PositionRecord>) -> bool {
    forall|i: int, j: int| 0 <= i < ps.len() && 0 <= j < ps.len() && i != j ==> ps[i].id@ != ps[j].id@
}

/// Drops the positions that were listed twice (a position can be returned by
/// both directions of a market), keeping the first of each.
pub fn dedup_positions(positions: &Vec<PositionRecord>) -> (r: Vec<PositionRecord>)
    ensures
        r@ == first_of_each_id(positions@),
{
    let mut out: Vec<PositionRecord> = Vec::new();
    let mut i: usize = 0;
    while i < positions.len()
        invariant
            i <= positions@.len(),
            out@ == first_of_each_id(positions@.take(i as int)),
        decreases positions@.len() - i,
    {
        let p = &positions[i];
        proof {
            assert(positions@.take(i + 1).drop_last() =~= positions@.take(i as int));
            assert(positions@.take(i + 1).last() == positions@[i as int]);
        }
        let mut seen = false;
        let mut j: usize = 0;
        while j < out.len()
            invariant
                j <= out@.len(),
                seen == (exists|k: int| 0 <= k < j && out@[k].id@ == p.id@),
            decreases out@.len() - j,
        {
            if out[j].id == p.id {
                seen = true;
            }
            j = j + 1;
        }
        if !seen {
            out.push(p.clone());
        }
        i = i + 1;
    }
    assert(positions@.take(positions@.len() as int) =~= positions@);
    out
}

/// The positions kept carry pairwise different identifiers.
pub proof fn lemma_dedup_ids_distinct(ps: Seq<PositionRecord>)
    ensures
        ids_distinct(first_of_each_id(ps)),
    decreases ps.len(),
{
    if ps.len() > 0 {
        lemma_dedup_ids_distinct(ps.drop_last());
    }
}

/// Every identifier of the input is kept, and no other one appears.
pub proof fn lemma_dedup_keeps_every_id(ps: Seq<PositionRecord>, id: Seq<char>)
    ensures
        has_id(first_of_each_id(ps), id) == has_id(ps, id),
    decreases ps.len(),
{
    if ps.len() > 0 {
        let init = ps.drop_last();
        lemma_dedup_keeps_every_id(init, id);
        let rest = first_of_each_id(init);
        if has_id(init, id) {
            let j = choose|j: int| 0 <= j < init.len() && init[j].id@ == id;
            assert(ps[j].id@ == id);
            if !has_id(rest, ps.last().id@) {
                let k = choose|k: int| 0 <= k < rest.len() && rest[k].id@ == id;
                assert(rest.push(ps.last())[k].id@ == id);
            }
        }
        if has_id(ps, id) && !has_id(init, id) {
            let j = choose|j: int| 0 <= j < ps.len() && ps[j].id@ == id;
            if j < init.len() {
                assert(init[j].id@ == id);
            }
            assert(ps.last().id@ == id);
            assert(rest.push(ps.last())[rest.len() as int].id@ == id);
        }
        if has_id(first_of_each_id(ps), id) && !has_id(rest, id) {
            assert(ps.last().id@ == id);
            assert(ps[ps.len() - 1].id@ == id);
        }
    }
}

/// When no identifier repeats, nothing is dropped.
pub proof fn lemma_dedup_distinct_unchanged(ps: Seq<PositionRecord>)
    requires
        ids_distinct(ps),
    ensures
        first_of_each_id(ps) == ps,
    decreases ps.len(),
{
    if ps.len() > 0 {
        let init = ps.drop_last();
        assert(ids_distinct(init));
        lemma_dedup_distinct_unchanged(init);
        if has_id(init, ps.last().id@) {
            let j = choose|j: int| 0 <= j < init.len() && init[j].id@ == ps.last().id@;
            assert(ps[j].id@ == ps[ps.len() - 1].id@);
        }
        assert(init.push(ps.last()) =~= ps);
    }
}

/// Dropping repeated positions twice drops nothing more.
pub proof fn lemma_dedup_idempotent(ps: Seq<PositionRecord>)
    ensures
        first_of_each_id(first_of_each_id(ps)) == first_of_each_id(ps),
{
    lemma_dedup_ids_distinct(ps);
    lemma_dedup_distinct_unchanged(first_of_each_id(ps));
}

} // verus!
