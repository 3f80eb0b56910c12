use vstd::prelude::*;

use crate::positions::{AssetId, Market, same_asset};

verus! {

/// An unspent note of the wallet, as the trading logic reads it.
pub struct NoteRecord {
    /// Account of the address that holds the note.
    pub account: u32,
    /// Randomizer of that address; the account's default address has all zeros.
    pub randomizer: [u8; 12],
    /// The asset the note holds.
    pub asset: AssetId,
    /// Base denomination of that asset, when the wallet's asset registry
    /// knows it.
    pub denom: Option<String>,
    /// Amount of the asset.
    pub amount: u128,
}

/// Whether a note is held by the default address of `account`.
pub open spec fn at_account(n: NoteRecord, account: u32) -> bool {
    n.account == account && n.randomizer@ == Seq::new(12, |i: int| 0u8)
}

/// Whether a note is held by the default address of `account`.
pub fn note_at_account(n: &NoteRecord, account: u32) -> (r: bool)
    ensures
        r == at_account(*n, account),
{
    if n.account != account {
        return false;
    }
    let mut i: usize = 0;
    while i < 12
        invariant
            i <= 12,
            n.randomizer@.len() == 12,
            forall|j: int| 0 <= j < i ==> n.randomizer@[j] == 0u8,
        decreases 12 - i,
    {
        if n.randomizer[i] != 0 {
            assert(n.randomizer@[i as int] != Seq::new(12, |k: int| 0u8)[i as int]);
            return false;
        }
        i = i + 1;
    }
    assert(n.randomizer@ =~= Seq::new(12, |k: int| 0u8));
    true
}

/// Whether a note counts for the funds of `source`: with `None`, every note
/// of the wallet counts, whatever its address; with `Some(account)`, only
/// the notes held by the default address of `account`.
pub open spec fn at_source(n: NoteRecord, source: Option<u32>) -> bool {
    match source {
        None => true,
        Some(account) => at_account(n, account),
    }
}

/// Whether a note counts for the funds of `source`.
pub fn note_at_source(n: &NoteRecord, source: Option<u32>) -> (r: bool)
    ensures
        r == at_source(*n, source),
{
    match source {
        None => true,
        Some(account) => note_at_account(n, account),
    }
}

/// The amount of `asset` that the notes counting for `source` hold.
pub open spec fn balance_of(notes: Seq<NoteRecord>, source: Option<u32>, asset: AssetId) -> nat
    decreases notes.len(),
{
    if notes.len() == 0 {
        0
    } else {
        let n = notes.last();
        balance_of(notes.drop_last(), source, asset) + if at_source(n, source) && same_asset(
            n.asset,
            asset,
        ) {
            n.amount as nat
        } else {
            0
        }
    }
}

proof fn lemma_balance_monotone(notes: Seq<NoteRecord>, source: Option<u32>, asset: AssetId, i: int, k: int)
    requires
        0 <= i <= k <= notes.len(),
    ensures
        balance_of(notes.take(i), source, asset) <= balance_of(notes.take(k), source, asset),
    decreases k - i,
{
    if i < k {
        lemma_balance_monotone(notes, source, asset, i, k - 1);
        assert(notes.take(k).drop_last() =~= notes.take(k - 1));
    }
}

/// The spendable balance of the two assets of `market` in the notes that
/// count for `source` (every address of the wallet when `None`), or `None`
/// when one of them does not fit an amount.
pub fn spendable_balance(notes: &Vec<NoteRecord>, source: Option<u32>, market: &Market) -> (r: Option<
    (u128, u128),
>)
    ensures
        match r {
            Some((b1, b2)) => b1 == balance_of(notes@, source, market.start) && b2 == balance_of(
                notes@,
                source,
                market.end,
            ),
            None => balance_of(notes@, source, market.start) > u128::MAX || balance_of(
                notes@,
                source,
                market.end,
            ) > u128::MAX,
        },
{
    let mut b1: u128 = 0;
    let mut b2: u128 = 0;
    let mut i: usize = 0;
    while i < notes.len()
        invariant
            i <= notes@.len(),
            b1 == balance_of(notes@.take(i as int), source, market.start),
            b2 == balance_of(notes@.take(i as int), source, market.end),
        decreases notes@.len() - i,
    {
        let n = &notes[i];
        proof {
            assert(notes@.take(i + 1).drop_last() =~= notes@.take(i as int));
            assert(notes@.take(i + 1).last() == notes@[i as int]);
            lemma_balance_monotone(notes@, source, market.start, i + 1, notes@.len() as int);
            lemma_balance_monotone(notes@, source, market.end, i + 1, notes@.len() as int);
            assert(notes@.take(notes@.len() as int) =~= notes@);
        }
        if note_at_source(n, source) {
            if crate::positions::asset_eq(&n.asset, &market.start) {
                match b1.checked_add(n.amount) {
                    Some(v) => b1 = v,
                    None => return None,
                }
            }
            if crate::positions::asset_eq(&n.asset, &market.end) {
                match b2.checked_add(n.amount) {
                    Some(v) => b2 = v,
                    None => return None,
                }
            }
        }
        i = i + 1;
    }
    assert(notes@.take(notes@.len() as int) =~= notes@);
    Some((b1, b2))
}

} // verus!
