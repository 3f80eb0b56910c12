use vstd::prelude::*;

use crate::notes::{NoteRecord, at_source, note_at_source};
use crate::positions::PositionRecord;
use crate::text::{starts_with, texts};

verus! {

/// The two kinds of position NFT that the wallet holds: one while the
/// position is open, one once it has been closed.
#[derive(PartialEq, Eq, Structural, Clone, Copy)]
pub enum LpNftKind {
    Opened,
    Closed,
}

/// The prefix that the denomination of each kind of position NFT starts with.
pub open spec fn lp_nft_prefix(kind: LpNftKind) -> Seq<char> {
    match kind {
        LpNftKind::Opened => "lpnft_opened_"@,
        LpNftKind::Closed => "lpnft_closed_"@,
    }
}

/// The prefix that the denomination of each kind of position NFT starts with.
pub fn lp_nft_prefix_str(kind: LpNftKind) -> (r: &'static str)
    ensures
        r@ == lp_nft_prefix(kind),
{
    match kind {
        LpNftKind::Opened => "lpnft_opened_",
        LpNftKind::Closed => "lpnft_closed_",
    }
}

/// Whether a note is a position NFT of the given kind that counts for
/// `source` (any address of the wallet when `None`).
pub open spec fn is_lp_nft_note(source: Option<u32>, kind: LpNftKind) -> spec_fn(NoteRecord) -> bool {
    |n: NoteRecord|
        at_source(n, source) && n.denom is Some && lp_nft_prefix(kind).is_prefix_of(
            n.denom->0@,
        )
}

/// The denominations of the position NFTs of the given kind that count for
/// `source`, in the order of the notes.
pub open spec fn lp_nft_denoms_of(notes: Seq<NoteRecord>, source: Option<u32>, kind: LpNftKind) -> Seq<
    Seq<char>,
> {
    notes.filter(is_lp_nft_note(source, kind)).map_values(|n: NoteRecord| n.denom->0@)
}

/// Collects the denominations of the position NFTs of the given kind that
/// count for `source` (any address of the wallet when `None`): they name
/// the positions that the trader owns.
pub fn lp_nft_denoms(notes: &Vec<NoteRecord>, source: Option<u32>, kind: LpNftKind) -> (r: Vec<String>)
    ensures
        texts(r@) == lp_nft_denoms_of(notes@, source, kind),
{
    let prefix = lp_nft_prefix_str(kind);
    let mut out: Vec<String> = Vec::new();
    let mut i: usize = 0;
    while i < notes.len()
        invariant
            i <= notes@.len(),
            prefix@ == lp_nft_prefix(kind),
            texts(out@) == notes@.take(i as int).filter(is_lp_nft_note(source, kind)).map_values(
                |n: NoteRecord| n.denom->0@,
            ),
        decreases notes@.len() - i,
    {
        let n = &notes[i];
        let ghost before = out@;
        proof {
            reveal(Seq::filter);
            assert(notes@.take(i + 1).drop_last() =~= notes@.take(i as int));
        }
        if note_at_source(n, source) {
            match &n.denom {
                Some(d) => {
                    if starts_with(d.as_str(), prefix) {
                        out.push(d.clone());
                        proof {
                            let f = |n: NoteRecord| n.denom->0@;
                            let kept = notes@.take(i as int).filter(is_lp_nft_note(source, kind));
                            assert(notes@.take(i + 1).filter(is_lp_nft_note(source, kind)) == kept.push(notes@[i as int]));
                            assert(kept.push(notes@[i as int]).map_values(f) =~= kept.map_values(f).push(d@));
                            assert(texts(out@) =~= texts(before).push(d@));
                        }
                    }
                },
                None => {},
            }
        }
        i = i + 1;
    }
    assert(notes@.take(notes@.len() as int) =~= notes@);
    out
}

/// Whether the position NFT of the given kind for a position is among
/// `lp_denoms`.
pub open spec fn owned_by(lp_denoms: Seq<Seq<char>>, kind: LpNftKind) -> spec_fn(PositionRecord) -> bool {
    |p: PositionRecord| lp_denoms.contains(lp_nft_prefix(kind) + p.id@)
}

/// Keeps the positions whose position NFT of the given kind is among
/// `lp_denoms`: the ones that the wallet controls.
pub fn owned_positions(positions: &Vec<PositionRecord>, lp_denoms: &Vec<String>, kind: LpNftKind) -> (r: Vec<PositionRecord>)
    ensures
        r@ == positions@.filter(owned_by(texts(lp_denoms@), kind)),
{
    let prefix = lp_nft_prefix_str(kind);
    let ghost denoms = texts(lp_denoms@);
    let mut out: Vec<PositionRecord> = Vec::new();
    let mut i: usize = 0;
    while i < positions.len()
        invariant
            i <= positions@.len(),
            prefix@ == lp_nft_prefix(kind),
            denoms == texts(lp_denoms@),
            out@ == positions@.take(i as int).filter(owned_by(denoms, kind)),
        decreases positions@.len() - i,
    {
        let p = &positions[i];
        proof {
            reveal(Seq::filter);
            assert(positions@.take(i + 1).drop_last() =~= positions@.take(i as int));
        }
        let tag = String::from_str(prefix).concat(p.id.as_str());
        let mut found = false;
        let mut j: usize = 0;
        while j < lp_denoms.len()
            invariant
                j <= lp_denoms@.len(),
                denoms == texts(lp_denoms@),
                found == (exists|k: int| 0 <= k < j && denoms[k] == tag@),
            decreases lp_denoms@.len() - j,
        {
            proof {
                assert(denoms[j as int] == lp_denoms@[j as int]@);
            }
            if lp_denoms[j] == tag {
                found = true;
            }
            j = j + 1;
        }
        proof {
            if found {
                let k = choose|k: int| 0 <= k < lp_denoms@.len() && denoms[k] == tag@;
                assert(denoms.contains(tag@));
            }
        }
        if found {
            out.push(p.clone());
        }
        i = i + 1;
    }
    assert(positions@.take(positions@.len() as int) =~= positions@);
    out
}

/// Notes that are not position NFTs of the kind counting for `source`
/// (held by an address that does not count, of an asset that the registry
/// does not name, or of another denomination) never change which positions
/// are owned: inserting any number of them anywhere among the notes leaves
/// the NFT denominations, and so the owned positions, as they were.
pub proof fn lemma_unrelated_notes_ignored(
    before: Seq<NoteRecord>,
    extra: Seq<NoteRecord>,
    after: Seq<NoteRecord>,
    source: Option<u32>,
    kind: LpNftKind,
    positions: Seq<PositionRecord>,
)
    requires
        forall|k: int| 0 <= k < extra.len() ==> !is_lp_nft_note(source, kind)(#[trigger] extra[k]),
    ensures
        lp_nft_denoms_of(before + extra + after, source, kind) == lp_nft_denoms_of(
            before + after,
            source,
            kind,
        ),
        positions.filter(owned_by(lp_nft_denoms_of(before + extra + after, source, kind), kind))
            == positions.filter(owned_by(lp_nft_denoms_of(before + after, source, kind), kind)),
{
    let p = is_lp_nft_note(source, kind);
    Seq::filter_distributes_over_add(before + extra, after, p);
    Seq::filter_distributes_over_add(before, extra, p);
    Seq::filter_distributes_over_add(before, after, p);
    lemma_filter_none(extra, p);
    assert(extra.filter(p) =~= Seq::<NoteRecord>::empty());
    assert(before.filter(p) + extra.filter(p) =~= before.filter(p));
}

proof fn lemma_filter_none(s: Seq<NoteRecord>, p: spec_fn(NoteRecord) -> bool)
    requires
        forall|k: int| 0 <= k < s.len() ==> !p(#[trigger] s[k]),
    ensures
        s.filter(p).len() == 0,
    decreases s.len(),
{
    reveal(Seq::filter);
    if s.len() > 0 {
        assert(!p(s[s.len() - 1]));
        assert forall|k: int| 0 <= k < s.drop_last().len() implies !p(#[trigger] s.drop_last()[k]) by {
            assert(s.drop_last()[k] == s[k]);
        }
        lemma_filter_none(s.drop_last(), p);
    }
}

} // verus!
