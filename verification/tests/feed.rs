use osiris::feed::{book_ticker_streams, combined_subscription, known_symbols};
use osiris::market::{market_for_symbol, symbol_permutations};
use osiris::node::{transport_for_scheme, Transport};
use osiris::quote_filter::{BookQuote, QuoteFilter};
use osiris::reconnect::{Reconnect, ReconnectAction};
use osiris::text::{starts_with, strip_trailing_slash};

fn strings(v: &[&str]) -> Vec<String> {
    v.iter().map(|s| s.to_string()).collect()
}

fn quote(symbol: &str, update_id: u64, bid: &str, ask: &str) -> BookQuote {
    BookQuote {
        symbol: symbol.to_string(),
        update_id,
        best_bid: bid.to_string(),
        best_ask: ask.to_string(),
    }
}

#[test]
fn streams_are_lowercased_book_tickers() {
    let streams = book_ticker_streams(&strings(&["ETHBTC", "BTCUSD"]));
    assert_eq!(streams, strings(&["ethbtc@bookTicker", "btcusd@bookTicker"]));
}

#[test]
fn subscription_joins_streams_with_slashes() {
    let path = combined_subscription(&strings(&["ethbtc@bookTicker", "btcusd@bookTicker"]));
    assert_eq!(path, "stream?streams=ethbtc@bookTicker/btcusd@bookTicker");
    assert_eq!(combined_subscription(&strings(&["a"])), "stream?streams=a");
    assert_eq!(combined_subscription(&Vec::new()), "stream?streams=");
}

#[test]
fn permutations_pair_every_two_different_symbols() {
    let perms = symbol_permutations(&strings(&["USDT", "ETH", "BTC"]));
    assert_eq!(
        perms,
        strings(&["ETHUSDT", "BTCUSDT", "USDTETH", "BTCETH", "USDTBTC", "ETHBTC"])
    );
    assert_eq!(perms.len(), 3 * 2);
}

#[test]
fn permutations_skip_equal_symbols() {
    assert_eq!(symbol_permutations(&strings(&["ETH", "ETH"])), Vec::<String>::new());
    assert_eq!(symbol_permutations(&strings(&["ETH"])), Vec::<String>::new());
    assert_eq!(symbol_permutations(&Vec::new()), Vec::<String>::new());
}

#[test]
fn known_symbols_keep_the_quoted_ones() {
    let kept = known_symbols(&strings(&["ETHBTC", "BTCETH", "ETHUSD"]), &vec![true, false, true]);
    assert_eq!(kept, strings(&["ETHBTC", "ETHUSD"]));
}

#[test]
fn trailing_slash_is_dropped_once() {
    assert_eq!(strip_trailing_slash("https://api.binance.us/"), "https://api.binance.us");
    assert_eq!(strip_trailing_slash("https://api.binance.us"), "https://api.binance.us");
    assert_eq!(strip_trailing_slash("wss://x//"), "wss://x/");
    assert_eq!(strip_trailing_slash(""), "");
}

#[test]
fn starts_with_matches_prefixes() {
    assert!(starts_with("lpnft_closed_plpid1", "lpnft_closed_"));
    assert!(!starts_with("lpnft_opened_plpid1", "lpnft_closed_"));
    assert!(!starts_with("lpnft", "lpnft_closed_"));
    assert!(starts_with("abc", ""));
}

#[test]
fn symbol_table_markets() {
    let m = market_for_symbol(&"ETHBTC".to_string()).unwrap();
    assert_eq!((m.start.as_str(), m.end.as_str()), ("test_btc", "test_eth"));
    let m = market_for_symbol(&"ETHUSD".to_string()).unwrap();
    assert_eq!((m.start.as_str(), m.end.as_str()), ("test_usd", "test_eth"));
    let m = market_for_symbol(&"BTCUSD".to_string()).unwrap();
    assert_eq!((m.start.as_str(), m.end.as_str()), ("test_usd", "test_btc"));
    let m = market_for_symbol(&"ATOMBTC".to_string()).unwrap();
    assert_eq!((m.start.as_str(), m.end.as_str()), ("test_btc", "test_atom"));
    let m = market_for_symbol(&"ATOMUSD".to_string()).unwrap();
    assert_eq!((m.start.as_str(), m.end.as_str()), ("test_usd", "test_atom"));
    assert!(market_for_symbol(&"BTCETH".to_string()).is_none());
    assert!(market_for_symbol(&"ethbtc".to_string()).is_none());
}

#[test]
fn transports_by_scheme() {
    assert_eq!(transport_for_scheme("http").ok(), Some(Transport::Plain));
    assert_eq!(transport_for_scheme("https").ok(), Some(Transport::Tls));
    match transport_for_scheme("ftp") {
        Err(e) => assert_eq!(e.scheme, "ftp"),
        Ok(_) => panic!("ftp has no transport"),
    }
}

#[test]
fn first_quote_is_forwarded_and_repeat_is_not() {
    let mut f = QuoteFilter::new();
    assert!(f.offer(quote("ETHBTC", 10, "0.05", "0.06")));
    assert!(!f.offer(quote("ETHBTC", 10, "0.05", "0.06")));
}

#[test]
fn stale_or_unchanged_quotes_are_dropped() {
    let mut f = QuoteFilter::new();
    assert!(f.offer(quote("ETHBTC", 10, "0.05", "0.06")));
    // older update with new prices
    assert!(!f.offer(quote("ETHBTC", 9, "0.07", "0.08")));
    // later update, same prices
    assert!(!f.offer(quote("ETHBTC", 11, "0.05", "0.06")));
    // later update, new ask
    assert!(f.offer(quote("ETHBTC", 12, "0.05", "0.065")));
    // later update, new bid
    assert!(f.offer(quote("ETHBTC", 13, "0.051", "0.065")));
}

#[test]
fn symbols_are_filtered_independently() {
    let mut f = QuoteFilter::new();
    assert!(f.offer(quote("ETHBTC", 10, "0.05", "0.06")));
    assert!(f.offer(quote("BTCUSD", 1, "60000", "60001")));
    assert!(!f.offer(quote("BTCUSD", 1, "60000", "60001")));
    assert!(!f.offer(quote("ETHBTC", 10, "0.05", "0.06")));
}

#[test]
fn backoff_doubles_then_gives_up() {
    let mut r = Reconnect::new();
    let mut waits = Vec::new();
    loop {
        match r.on_error() {
            ReconnectAction::Wait { secs } => waits.push(secs),
            ReconnectAction::GiveUp => break,
        }
    }
    assert_eq!(waits, vec![1, 2, 4, 8]);
    assert_eq!(r.retry_count(), 5);
    assert!(r.has_given_up());
}

#[test]
fn success_resets_backoff() {
    let mut r = Reconnect::new();
    assert!(matches!(r.on_error(), ReconnectAction::Wait { secs: 1 }));
    assert!(matches!(r.on_error(), ReconnectAction::Wait { secs: 2 }));
    assert_eq!(r.backoff_secs(), 4);
    r.on_success();
    assert_eq!(r.retry_count(), 0);
    assert_eq!(r.backoff_secs(), 1);
    assert!(matches!(r.on_error(), ReconnectAction::Wait { secs: 1 }));
}

#[test]
fn passed_on_quotes_rise_and_move_per_symbol() {
    let mut f = QuoteFilter::new();
    let offers = vec![
        quote("ETHBTC", 1, "1", "2"),
        quote("BTCUSD", 1, "9", "10"),
        quote("ETHBTC", 2, "1", "2"),
        quote("ETHBTC", 3, "1", "3"),
        quote("BTCUSD", 0, "8", "10"),
        quote("ETHBTC", 2, "5", "6"),
        quote("ETHBTC", 4, "1.5", "3"),
    ];
    let mut sent = Vec::new();
    for q in offers {
        let copy = q.clone();
        if f.offer(q) {
            sent.push(copy);
        }
    }
    let ids: Vec<(String, u64)> = sent.iter().map(|q| (q.symbol.clone(), q.update_id)).collect();
    assert_eq!(
        ids,
        vec![
            ("ETHBTC".to_string(), 1),
            ("BTCUSD".to_string(), 1),
            ("ETHBTC".to_string(), 3),
            ("ETHBTC".to_string(), 4),
        ]
    );
    let cloned = f.clone();
    let mut f2 = cloned;
    assert!(!f2.offer(quote("ETHBTC", 4, "1.5", "3")));
    assert!(f2.offer(quote("ETHBTC", 5, "1.6", "3")));
}
