use vstd::prelude::*;

use crate::positions::{Market, PositionRecord, asset_eq, same_asset};

verus! {

/// A position's reserves in the market's order: first the reserve of the
/// market's first asset, then that of its second. The position's own pair is
/// in canonical order, which may be the other way round.
pub open spec fn oriented_reserves(p: PositionRecord, market: Market) -> (nat, nat) {
    if same_asset(p.asset_1, market.start) {
        (p.r1 as nat, p.r2 as nat)
    } else {
        (p.r2 as nat, p.r1 as nat)
    }
}

/// Total reserves held by `ps`, in the market's order.
pub open spec fn reserves_total(ps: Seq<PositionRecord>, market: Market) -> (nat, nat)
    decreases ps.len(),
{
    if ps.len() == 0 {
        (0, 0)
    } else {
        let rest = reserves_total(ps.drop_last(), market);
        let last = oriented_reserves(ps.last(), market);
        (rest.0 + last.0, rest.1 + last.1)
    }
}

proof fn lemma_reserves_monotone(ps: Seq<PositionRecord>, market: Market, i: int, k: int)
    requires
        0 <= i <= k <= ps.len(),
    ensures
        reserves_total(ps.take(i), market).0 <= reserves_total(ps.take(k), market).0,
        reserves_total(ps.take(i), market).1 <= reserves_total(ps.take(k), market).1,
    decreases k - i,
{
    if i < k {
        lemma_reserves_monotone(ps, market, i, k - 1);
        assert(ps.take(k).drop_last() =~= ps.take(k - 1));
    }
}

/// Adds the reserves of the closed positions, which the same transaction
/// withdraws, to the spendable balance `(b1, b2)`; `None` when a sum does not
/// fit an amount.
pub fn add_withdrawn_reserves(b1: u128, b2: u128, closed: &Vec<PositionRecord>, market: &Market) -> (r: Option<(u128, u128)>)
    ensures
        match r {
            Some((t1, t2)) => t1 == b1 + reserves_total(closed@, *market).0 && t2 == b2
                + reserves_total(closed@, *market).1,
            None => b1 + reserves_total(closed@, *market).0 > u128::MAX || b2 + reserves_total(
                closed@,
                *market,
            ).1 > u128::MAX,
        },
{
    let mut t1 = b1;
    let mut t2 = b2;
    let mut i: usize = 0;
    while i < closed.len()
        invariant
            i <= closed@.len(),
            t1 == b1 + reserves_total(closed@.take(i as int), *market).0,
            t2 == b2 + reserves_total(closed@.take(i as int), *market).1,
        decreases closed@.len() - i,
    {
        let p = &closed[i];
        proof {
            assert(closed@.take(i + 1).drop_last() =~= closed@.take(i as int));
            assert(closed@.take(i + 1).last() == closed@[i as int]);
            lemma_reserves_monotone(closed@, *market, i + 1, closed@.len() as int);
            assert(closed@.take(closed@.len() as int) =~= closed@);
        }
        let (x1, x2) = if asset_eq(&p.asset_1, &market.start) {
            (p.r1, p.r2)
        } else {
            (p.r2, p.r1)
        };
        match t1.checked_add(x1) {
            Some(v) => t1 = v,
            None => return None,
        }
        match t2.checked_add(x2) {
            Some(v) => t2 = v,
            None => return None,
        }
        i = i + 1;
    }
    assert(closed@.take(closed@.len() as int) =~= closed@);
    Some((t1, t2))
}

/// The reserves put into the new position when `(a1, a2)` is available: half
/// of each, or no position at all when both halves are zero.
pub open spec fn new_position_reserves_of(a1: nat, a2: nat) -> Option<(nat, nat)> {
    if a1 / 2 == 0 && a2 / 2 == 0 {
        None
    } else {
        Some((a1 / 2, a2 / 2))
    }
}

/// The reserves put into the new position when `(a1, a2)` is available: half
/// of each, or `None` when both halves are zero and no position is opened.
pub fn new_position_reserves(a1: u128, a2: u128) -> (r: Option<(u128, u128)>)
    ensures
        match r {
            Some((h1, h2)) => new_position_reserves_of(a1 as nat, a2 as nat) == Some((h1 as nat, h2 as nat)),
            None => new_position_reserves_of(a1 as nat, a2 as nat) is None,
        },
{
    let h1 = a1 / 2;
    let h2 = a2 / 2;
    if h1 == 0 && h2 == 0 {
        None
    } else {
        Some((h1, h2))
    }
}

/// The handles of a list of positions, in order.
pub open spec fn handles(ps: Seq<PositionRecord>) -> Seq<usize> {
    ps.map_values(|p: PositionRecord| p.handle)
}

/// What one quote makes the trader do in a market: close the positions it
/// has open there, withdraw the ones it has closed, and open one new position.
pub struct RebalancePlan {
    /// Handles of the positions to close, in order.
    pub close: Vec<usize>,
    /// Handles of the positions to withdraw, in order.
    pub withdraw: Vec<usize>,
    /// Reserves of the new position, in the market's order; `None` when
    /// there is nothing to put into one.
    pub open: Option<(u128, u128)>,
}

fn handles_of(ps: &Vec<PositionRecord>) -> (r: Vec<usize>)
    ensures
        r@ == handles(ps@),
        r@.len() == ps@.len(),
        forall|i: int| 0 <= i < ps@.len() ==> r@[i] == ps@[i].handle,
{
    let mut out: Vec<usize> = Vec::new();
    let mut i: usize = 0;
    while i < ps.len()
        invariant
            i <= ps@.len(),
            out@ =~= handles(ps@.take(i as int)),
        decreases ps@.len() - i,
    {
        out.push(ps[i].handle);
        i = i + 1;
    }
    assert(ps@.take(ps@.len() as int) =~= ps@);
    out
}

/// Plans the replacement of the trader's positions in `market`: every owned
/// open position is closed, every owned closed position is withdrawn, and a
/// new position is opened with half of what is then available: the spendable
/// balance `(b1, b2)` plus the withdrawn reserves. `None` when an amount
/// overflows.
pub fn plan_rebalance(
    b1: u128,
    b2: u128,
    owned_open: &Vec<PositionRecord>,
    owned_closed: &Vec<PositionRecord>,
    market: &Market,
) -> (r: Option<RebalancePlan>)
    ensures
        ({
            let total = reserves_total(owned_closed@, *market);
            match r {
                Some(plan) => {
                    &&& b1 + total.0 <= u128::MAX
                    &&& b2 + total.1 <= u128::MAX
                    &&& plan.close@ == handles(owned_open@)
                    &&& plan.withdraw@ == handles(owned_closed@)
                    &&& plan.close@.len() == owned_open@.len()
                    &&& forall|i: int| 0 <= i < owned_open@.len() ==> plan.close@[i] == owned_open@[i].handle
                    &&& plan.withdraw@.len() == owned_closed@.len()
                    &&& forall|i: int| 0 <= i < owned_closed@.len() ==> plan.withdraw@[i] == owned_closed@[i].handle
                    &&& match plan.open {
                        Some((h1, h2)) => new_position_reserves_of((b1 + total.0) as nat, (b2 + total.1) as nat) == Some(
                            (h1 as nat, h2 as nat),
                        ),
                        None => new_position_reserves_of((b1 + total.0) as nat, (b2 + total.1) as nat) is None,
                    }
                },
                None => b1 + total.0 > u128::MAX || b2 + total.1 > u128::MAX,
            }
        }),
{
    let close = handles_of(owned_open);
    let withdraw = handles_of(owned_closed);
    match add_withdrawn_reserves(b1, b2, owned_closed, market) {
        None => None,
        Some((t1, t2)) => {
            let open = new_position_reserves(t1, t2);
            Some(RebalancePlan { close, withdraw, open })
        },
    }
}

/// The handles listed for a set of positions name every one of them, in
/// order, whatever their reserves or state: one handle per position, the
/// `i`-th being the `i`-th position's.
pub proof fn lemma_handles_name_every_position(ps: Seq<PositionRecord>)
    ensures
        handles(ps).len() == ps.len(),
        forall|i: int| 0 <= i < ps.len() ==> #[trigger] handles(ps)[i] == ps[i].handle,
{
}

/// The new position gets half of what is available of each asset, rounded
/// down: never more, and at most one unit less.
pub proof fn lemma_new_position_takes_half(a1: nat, a2: nat)
    ensures
        new_position_reserves_of(a1, a2) matches Some((h1, h2)) ==> {
            &&& 2 * h1 <= a1 <= 2 * h1 + 1
            &&& 2 * h2 <= a2 <= 2 * h2 + 1
        },
        new_position_reserves_of(a1, a2) is None <==> (a1 <= 1 && a2 <= 1),
{
}

/// Reserves are counted in the market's order whichever order the position
/// lists its pair in: swapping a position's pair along with its reserves
/// changes nothing.
pub proof fn lemma_orientation_independent(p: PositionRecord, q: PositionRecord, market: Market)
    requires
        same_asset(q.asset_1, p.asset_2),
        same_asset(q.asset_2, p.asset_1),
        q.r1 == p.r2,
        q.r2 == p.r1,
        !same_asset(market.start, market.end),
        (same_asset(p.asset_1, market.start) && same_asset(p.asset_2, market.end)) || (same_asset(
            p.asset_1,
            market.end,
        ) && same_asset(p.asset_2, market.start)),
    ensures
        oriented_reserves(p, market) == oriented_reserves(q, market),
{
}

} // verus!
