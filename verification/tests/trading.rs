use osiris::ledger::UpdateLedger;
use osiris::notes::{spendable_balance, NoteRecord};
use osiris::ownership::{lp_nft_denoms, owned_positions, LpNftKind};
use osiris::positions::{
    closed_positions_in_market, dedup_positions, position_trades_market, AssetId, Market,
    PositionRecord, PositionState,
};
use osiris::rebalance::{add_withdrawn_reserves, new_position_reserves, plan_rebalance};
use osiris::trader::{decide_quote, plan_submitted, QuoteStep};

fn asset(b: u8) -> AssetId {
    AssetId { bytes: [b; 32] }
}

fn market() -> Market {
    Market { start: asset(1), end: asset(2) }
}

fn position(handle: usize, id: &str, a1: u8, a2: u8, r1: u128, r2: u128, state: PositionState) -> PositionRecord {
    PositionRecord {
        handle,
        id: id.to_string(),
        asset_1: asset(a1),
        asset_2: asset(a2),
        r1,
        r2,
        state,
    }
}

fn note(account: u32, asset_byte: u8, denom: Option<&str>, amount: u128) -> NoteRecord {
    NoteRecord {
        account,
        randomizer: [0; 12],
        asset: asset(asset_byte),
        denom: denom.map(|d| d.to_string()),
        amount,
    }
}

fn handles(ps: &[PositionRecord]) -> Vec<usize> {
    ps.iter().map(|p| p.handle).collect()
}

#[test]
fn positions_updated_once_per_block() {
    let mut ledger = UpdateLedger::new();
    let sym = "ETHBTC".to_string();
    assert!(ledger.should_update(&sym, 100));
    ledger.record_update(sym.clone(), 100);
    assert_eq!(ledger.last_updated(&sym), Some(100));
    assert!(!ledger.should_update(&sym, 100));
    assert!(!ledger.should_update(&sym, 99));
    assert!(ledger.should_update(&sym, 101));
    assert!(ledger.should_update(&"BTCUSD".to_string(), 100));
    ledger.record_update(sym.clone(), 105);
    assert_eq!(ledger.last_updated(&sym), Some(105));
    assert_eq!(ledger.last_updated(&"BTCUSD".to_string()), None);
}

#[test]
fn quote_decisions() {
    let mut ledger = UpdateLedger::new();
    let sym = "ETHBTC".to_string();
    match decide_quote(&ledger, &sym, 7) {
        QuoteStep::Replicate(m) => assert_eq!((m.start.as_str(), m.end.as_str()), ("test_btc", "test_eth")),
        _ => panic!("expected to replicate"),
    }
    assert!(matches!(decide_quote(&ledger, &"DOGEBTC".to_string(), 7), QuoteStep::UnknownSymbol));
    plan_submitted(&mut ledger, sym.clone(), 7, false);
    assert!(matches!(decide_quote(&ledger, &sym, 7), QuoteStep::Replicate(_)));
    plan_submitted(&mut ledger, sym.clone(), 7, true);
    assert!(matches!(decide_quote(&ledger, &sym, 7), QuoteStep::Skip));
    assert!(matches!(decide_quote(&ledger, &sym, 8), QuoteStep::Replicate(_)));
}

#[test]
fn market_matching_in_either_direction() {
    let m = market();
    assert!(position_trades_market(&position(0, "a", 1, 2, 0, 0, PositionState::Opened), &m));
    assert!(position_trades_market(&position(0, "a", 2, 1, 0, 0, PositionState::Opened), &m));
    assert!(!position_trades_market(&position(0, "a", 1, 3, 0, 0, PositionState::Opened), &m));
    assert!(!position_trades_market(&position(0, "a", 1, 1, 0, 0, PositionState::Opened), &m));
}

#[test]
fn closed_positions_of_the_market_only() {
    let ps = vec![
        position(0, "a", 1, 2, 5, 5, PositionState::Closed),
        position(1, "b", 2, 1, 5, 5, PositionState::Opened),
        position(2, "c", 2, 1, 5, 5, PositionState::Closed),
        position(3, "d", 1, 3, 5, 5, PositionState::Closed),
        position(4, "e", 1, 2, 5, 5, PositionState::Withdrawn),
    ];
    assert_eq!(handles(&closed_positions_in_market(&ps, &market())), vec![0, 2]);
}

#[test]
fn duplicates_dropped_keeping_first() {
    let ps = vec![
        position(0, "x", 1, 2, 1, 1, PositionState::Opened),
        position(1, "y", 1, 2, 1, 1, PositionState::Opened),
        position(2, "x", 1, 2, 1, 1, PositionState::Opened),
        position(3, "z", 1, 2, 1, 1, PositionState::Opened),
        position(4, "y", 1, 2, 1, 1, PositionState::Opened),
    ];
    let d = dedup_positions(&ps);
    assert_eq!(handles(&d), vec![0, 1, 3]);
    assert_eq!(handles(&dedup_positions(&d)), vec![0, 1, 3]);
    assert!(dedup_positions(&Vec::new()).is_empty());
}

#[test]
fn lp_nft_denoms_of_own_default_address() {
    let mut other_address = note(0, 9, Some("lpnft_closed_plpid1qqq"), 1);
    other_address.randomizer[3] = 7;
    let notes = vec![
        note(0, 9, Some("lpnft_closed_plpid1aaa"), 1),
        note(0, 9, Some("lpnft_opened_plpid1bbb"), 1),
        note(1, 9, Some("lpnft_closed_plpid1ccc"), 1),
        note(0, 9, None, 1),
        other_address,
        note(0, 1, Some("test_btc"), 100),
        note(0, 9, Some("lpnft_closed_plpid1ddd"), 1),
    ];
    assert_eq!(
        lp_nft_denoms(&notes, Some(0), LpNftKind::Closed),
        vec!["lpnft_closed_plpid1aaa".to_string(), "lpnft_closed_plpid1ddd".to_string()]
    );
    assert_eq!(
        lp_nft_denoms(&notes, Some(0), LpNftKind::Opened),
        vec!["lpnft_opened_plpid1bbb".to_string()]
    );
    assert_eq!(
        lp_nft_denoms(&notes, Some(1), LpNftKind::Closed),
        vec!["lpnft_closed_plpid1ccc".to_string()]
    );
}

#[test]
fn owned_positions_by_their_nft() {
    let ps = vec![
        position(0, "plpid1aaa", 1, 2, 1, 1, PositionState::Closed),
        position(1, "plpid1bbb", 1, 2, 1, 1, PositionState::Closed),
        position(2, "plpid1ddd", 1, 2, 1, 1, PositionState::Closed),
    ];
    let nfts = vec!["lpnft_closed_plpid1aaa".to_string(), "lpnft_closed_plpid1ddd".to_string()];
    assert_eq!(handles(&owned_positions(&ps, &nfts, LpNftKind::Closed)), vec![0, 2]);
    assert!(owned_positions(&ps, &nfts, LpNftKind::Opened).is_empty());
}

#[test]
fn spendable_balance_per_market_asset() {
    let mut other_address = note(0, 1, None, 1000);
    other_address.randomizer[0] = 1;
    let notes = vec![
        note(0, 1, Some("test_btc"), 10),
        note(0, 2, Some("test_eth"), 20),
        note(0, 1, Some("test_btc"), 5),
        note(1, 1, Some("test_btc"), 500),
        note(0, 3, Some("test_usd"), 7),
        other_address,
    ];
    assert_eq!(spendable_balance(&notes, Some(0), &market()), Some((15, 20)));
    assert_eq!(spendable_balance(&notes, Some(1), &market()), Some((500, 0)));
    assert_eq!(spendable_balance(&Vec::new(), Some(0), &market()), Some((0, 0)));
}

#[test]
fn spendable_balance_overflow() {
    let notes = vec![note(0, 1, None, u128::MAX), note(0, 1, None, 1)];
    assert_eq!(spendable_balance(&notes, Some(0), &market()), None);
    let notes = vec![note(0, 1, None, u128::MAX), note(0, 2, None, u128::MAX)];
    assert_eq!(spendable_balance(&notes, Some(0), &market()), Some((u128::MAX, u128::MAX)));
}

#[test]
fn withdrawn_reserves_in_market_order() {
    let closed = vec![
        position(0, "a", 1, 2, 3, 4, PositionState::Closed),
        position(1, "b", 2, 1, 30, 40, PositionState::Closed),
    ];
    // the second position lists the pair the other way round
    assert_eq!(add_withdrawn_reserves(100, 200, &closed, &market()), Some((143, 234)));
    assert_eq!(add_withdrawn_reserves(u128::MAX, 0, &closed, &market()), None);
    assert_eq!(add_withdrawn_reserves(0, u128::MAX - 34, &closed, &market()), Some((43, u128::MAX)));
    assert_eq!(add_withdrawn_reserves(0, u128::MAX - 33, &closed, &market()), None);
}

#[test]
fn new_position_takes_half() {
    assert_eq!(new_position_reserves(10, 7), Some((5, 3)));
    assert_eq!(new_position_reserves(1, 1), None);
    assert_eq!(new_position_reserves(0, 0), None);
    assert_eq!(new_position_reserves(0, 2), Some((0, 1)));
    assert_eq!(new_position_reserves(u128::MAX, 3), Some((u128::MAX / 2, 1)));
}

#[test]
fn rebalance_plan_closes_withdraws_and_opens() {
    let open = vec![
        position(4, "o1", 1, 2, 1, 1, PositionState::Opened),
        position(5, "o2", 2, 1, 1, 1, PositionState::Opened),
    ];
    let closed = vec![position(7, "c1", 2, 1, 6, 8, PositionState::Closed)];
    let plan = plan_rebalance(10, 20, &open, &closed, &market()).unwrap();
    assert_eq!(plan.close, vec![4, 5]);
    assert_eq!(plan.withdraw, vec![7]);
    assert_eq!(plan.open, Some((9, 13)));

    let plan = plan_rebalance(1, 0, &Vec::new(), &Vec::new(), &market()).unwrap();
    assert!(plan.close.is_empty() && plan.withdraw.is_empty());
    assert_eq!(plan.open, None);

    assert!(plan_rebalance(u128::MAX, 0, &open, &closed, &market()).is_none());
}

#[test]
fn without_source_every_address_counts() {
    let mut other_address = note(0, 1, None, 1000);
    other_address.randomizer[0] = 1;
    let notes = vec![
        note(1, 1, Some("test_btc"), 5),
        note(0, 2, Some("test_eth"), 20),
        other_address,
    ];
    assert_eq!(spendable_balance(&notes, Some(0), &market()), Some((0, 20)));
    assert_eq!(spendable_balance(&notes, None, &market()), Some((1005, 20)));

    let mut nft_elsewhere = note(3, 9, Some("lpnft_opened_plpid1eee"), 1);
    nft_elsewhere.randomizer[11] = 2;
    let nfts = vec![note(0, 9, Some("lpnft_opened_plpid1aaa"), 1), nft_elsewhere];
    assert_eq!(
        lp_nft_denoms(&nfts, None, LpNftKind::Opened),
        vec!["lpnft_opened_plpid1aaa".to_string(), "lpnft_opened_plpid1eee".to_string()]
    );
    assert_eq!(
        lp_nft_denoms(&nfts, Some(0), LpNftKind::Opened),
        vec!["lpnft_opened_plpid1aaa".to_string()]
    );
}

#[test]
fn unrelated_notes_leave_ownership_unchanged() {
    let ps = vec![
        position(0, "plpid1aaa", 1, 2, 1, 1, PositionState::Opened),
        position(1, "plpid1bbb", 1, 2, 1, 1, PositionState::Opened),
    ];
    let base = vec![note(0, 9, Some("lpnft_opened_plpid1aaa"), 1)];
    let with_extra = vec![
        note(4, 9, Some("lpnft_opened_plpid1bbb"), 1),
        note(0, 9, Some("lpnft_opened_plpid1aaa"), 1),
        note(0, 9, None, 1),
        note(0, 9, Some("lpnft_closed_plpid1bbb"), 1),
    ];
    let owned = |notes: &Vec<NoteRecord>| {
        handles(&owned_positions(&ps, &lp_nft_denoms(notes, Some(0), LpNftKind::Opened), LpNftKind::Opened))
    };
    assert_eq!(owned(&base), vec![0]);
    assert_eq!(owned(&with_extra), vec![0]);
}
