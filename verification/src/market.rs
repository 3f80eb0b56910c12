use vstd::prelude::*;

use crate::text::texts;

verus! {

/// The two denominations of the market that a trading symbol is replicated
/// into: the first prices the second.
pub struct MarketDenoms {
    pub start: String,
    pub end: String,
}

/// The markets that the trader replicates, by trading symbol: the symbol
/// `XY` prices asset `X` in units of asset `Y`, so the market runs from
/// `Y`'s denomination to `X`'s.
pub open spec fn market_denoms_of(symbol: Seq<char>) -> Option<(Seq<char>, Seq<char>)> {
    if symbol == "ETHBTC"@ {
        Some(("test_btc"@, "test_eth"@))
    } else if symbol == "ETHUSD"@ {
        Some(("test_usd"@, "test_eth"@))
    } else if symbol == "BTCUSD"@ {
        Some(("test_usd"@, "test_btc"@))
    } else if symbol == "ATOMBTC"@ {
        Some(("test_btc"@, "test_atom"@))
    } else if symbol == "ATOMUSD"@ {
        Some(("test_usd"@, "test_atom"@))
    } else {
        None
    }
}

fn denoms(start: &str, end: &str) -> (r: Option<MarketDenoms>)
    ensures
        r matches Some(m) && m.start@ == start@ && m.end@ == end@,
{
    Some(MarketDenoms { start: String::from_str(start), end: String::from_str(end) })
}

/// Looks up the market that a trading symbol is replicated into; `None` for
/// a symbol that has no market.
pub fn market_for_symbol(symbol: &String) -> (r: Option<MarketDenoms>)
    ensures
        match r {
            Some(m) => market_denoms_of(symbol@) == Some((m.start@, m.end@)),
            None => market_denoms_of(symbol@) is None,
        },
{
    if *symbol == String::from_str("ETHBTC") {
        denoms("test_btc", "test_eth")
    } else if *symbol == String::from_str("ETHUSD") {
        denoms("test_usd", "test_eth")
    } else if *symbol == String::from_str("BTCUSD") {
        denoms("test_usd", "test_btc")
    } else if *symbol == String::from_str("ATOMBTC") {
        denoms("test_btc", "test_atom")
    } else if *symbol == String::from_str("ATOMUSD") {
        denoms("test_usd", "test_atom")
    } else {
        None
    }
}

/// The symbols `s2 + first` for the `s2` among the first `n` of `symbols`
/// that differ from `first`, in order.
pub open spec fn pairs_with(symbols: Seq<Seq<char>>, first: Seq<char>, n: int) -> Seq<Seq<char>>
    decreases n,
{
    if n <= 0 || n > symbols.len() {
        Seq::empty()
    } else {
        let rest = pairs_with(symbols, first, n - 1);
        let second = symbols[n - 1];
        if first != second {
            rest.push(second + first)
        } else {
            rest
        }
    }
}

/// The candidate symbols for the first `n` of `symbols`, each paired with
/// every symbol of the list.
pub open spec fn permutations_upto(symbols: Seq<Seq<char>>, n: int) -> Seq<Seq<char>>
    decreases n,
{
    if n <= 0 || n > symbols.len() {
        Seq::empty()
    } else {
        permutations_upto(symbols, n - 1) + pairs_with(symbols, symbols[n - 1], symbols.len() as int)
    }
}

/// Every trading symbol that two different assets of `symbols` form: for
/// each `s1` in order, and each `s2 != s1` in order, the symbol `s2 + s1`.
pub open spec fn symbol_permutations_of(symbols: Seq<Seq<char>>) -> Seq<Seq<char>> {
    permutations_upto(symbols, symbols.len() as int)
}

/// Forms every trading symbol that two different assets of `symbols` make,
/// in both orders; which of them the exchange lists is checked later.
pub fn symbol_permutations(symbols: &Vec<String>) -> (r: Vec<String>)
    ensures
        texts(r@) == symbol_permutations_of(texts(symbols@)),
{
    let ghost syms = texts(symbols@);
    let n = symbols.len();
    let mut out: Vec<String> = Vec::new();
    let mut i: usize = 0;
    while i < n
        invariant
            n == symbols@.len(),
            syms == texts(symbols@),
            syms.len() == n,
            i <= n,
            texts(out@) == permutations_upto(syms, i as int),
        decreases n - i,
    {
        let first = &symbols[i];
        let ghost base = texts(out@);
        let mut j: usize = 0;
        while j < n
            invariant
                n == symbols@.len(),
                syms == texts(symbols@),
                syms.len() == n,
                i < n,
                j <= n,
                first@ == syms[i as int],
                texts(out@) == base + pairs_with(syms, syms[i as int], j as int),
            decreases n - j,
        {
            let second = &symbols[j];
            assert(second@ == syms[j as int]);
            if !(*first == *second) {
                let pair = second.clone().concat(first.as_str());
                let ghost prev = out@;
                out.push(pair);
                assert(texts(out@) =~= texts(prev).push(pair@));
                assert(base + pairs_with(syms, syms[i as int], j + 1) =~= (base + pairs_with(
                    syms,
                    syms[i as int],
                    j as int,
                )).push(pair@));
            }
            j = j + 1;
        }
        assert(permutations_upto(syms, i + 1) == permutations_upto(syms, i as int) + pairs_with(
            syms,
            syms[i as int],
            n as int,
        ));
        i = i + 1;
    }
    out
}

/// No symbol occurs twice in `symbols`.
pub open spec fn distinct_texts(symbols: Seq<Seq<char>>) -> bool {
    forall|i: int, j: int| 0 <= i < symbols.len() && 0 <= j < symbols.len() && i != j ==> symbols[i] != symbols[j]
}

proof fn lemma_pairs_with_len(symbols: Seq<Seq<char>>, k: int, n: int)
    requires
        distinct_texts(symbols),
        0 <= k < symbols.len(),
        0 <= n <= symbols.len(),
    ensures
        pairs_with(symbols, symbols[k], n).len() == if k < n { n - 1 } else { n },
    decreases n,
{
    if n > 0 {
        lemma_pairs_with_len(symbols, k, n - 1);
    }
}

/// For `n` distinct assets, `n * (n - 1)` candidate symbols are formed: one
/// per ordered pair of different assets.
pub proof fn lemma_permutations_count(symbols: Seq<Seq<char>>)
    requires
        distinct_texts(symbols),
    ensures
        symbol_permutations_of(symbols).len() == symbols.len() * (symbols.len() - 1),
{
    let len = symbols.len() as int;
    assert forall|m: int| 0 <= m <= len implies #[trigger] permutations_upto(symbols, m).len() == m * (len - 1) by {
        lemma_permutations_upto_len(symbols, m);
    }
    assert(permutations_upto(symbols, len).len() == len * (len - 1));
}

proof fn lemma_permutations_upto_len(symbols: Seq<Seq<char>>, m: int)
    requires
        distinct_texts(symbols),
        0 <= m <= symbols.len(),
    ensures
        permutations_upto(symbols, m).len() == m * (symbols.len() - 1),
    decreases m,
{
    let len = symbols.len() as int;
    if m > 0 {
        lemma_permutations_upto_len(symbols, m - 1);
        lemma_pairs_with_len(symbols, m - 1, len);
        assert(permutations_upto(symbols, m) == permutations_upto(symbols, m - 1) + pairs_with(
            symbols,
            symbols[m - 1],
            len,
        ));
        assert(m * (len - 1) == (m - 1) * (len - 1) + (len - 1)) by (nonlinear_arith);
    } else {
        assert(m * (len - 1) == 0) by (nonlinear_arith)
            requires
                m == 0,
        ;
    }
}

/// Every candidate symbol joins two different assets of the list, the second
/// one first.
pub proof fn lemma_permutation_members(symbols: Seq<Seq<char>>, k: int)
    requires
        0 <= k < symbol_permutations_of(symbols).len(),
    ensures
        exists|a: int, b: int|
            0 <= a < symbols.len() && 0 <= b < symbols.len() && symbols[a] != symbols[b]
                && symbol_permutations_of(symbols)[k] == #[trigger] (symbols[b] + symbols[a]),
{
    lemma_permutations_upto_members(symbols, symbols.len() as int, k);
}

proof fn lemma_pairs_with_members(symbols: Seq<Seq<char>>, a: int, n: int, k: int)
    requires
        0 <= a < symbols.len(),
        0 <= k < pairs_with(symbols, symbols[a], n).len(),
    ensures
        exists|b: int|
            0 <= b < symbols.len() && symbols[a] != symbols[b] && pairs_with(symbols, symbols[a], n)[k]
                == #[trigger] symbols[b] + symbols[a],
    decreases n,
{
    if n > 0 && n <= symbols.len() {
        let rest = pairs_with(symbols, symbols[a], n - 1);
        if k < rest.len() {
            lemma_pairs_with_members(symbols, a, n - 1, k);
            let b = choose|b: int|
                0 <= b < symbols.len() && symbols[a] != symbols[b] && rest[k] == #[trigger] symbols[b]
                    + symbols[a];
            assert(pairs_with(symbols, symbols[a], n)[k] == rest[k]);
        } else {
            assert(pairs_with(symbols, symbols[a], n)[k] == symbols[n - 1] + symbols[a]);
        }
    }
}

proof fn lemma_permutations_upto_members(symbols: Seq<Seq<char>>, m: int, k: int)
    requires
        0 <= k < permutations_upto(symbols, m).len(),
    ensures
        exists|a: int, b: int|
            0 <= a < symbols.len() && 0 <= b < symbols.len() && symbols[a] != symbols[b]
                && permutations_upto(symbols, m)[k] == #[trigger] (symbols[b] + symbols[a]),
    decreases m,
{
    if m > 0 && m <= symbols.len() {
        let prev = permutations_upto(symbols, m - 1);
        let row = pairs_with(symbols, symbols[m - 1], symbols.len() as int);
        if k < prev.len() {
            lemma_permutations_upto_members(symbols, m - 1, k);
            let (a, b) = choose|a: int, b: int|
                0 <= a < symbols.len() && 0 <= b < symbols.len() && symbols[a] != symbols[b]
                    && prev[k] == #[trigger] (symbols[b] + symbols[a]);
            assert(permutations_upto(symbols, m)[k] == prev[k]);
        } else {
            let kk = k - prev.len();
            lemma_pairs_with_members(symbols, m - 1, symbols.len() as int, kk);
            let b = choose|b: int|
                0 <= b < symbols.len() && symbols[m - 1] != symbols[b] && row[kk]
                    == #[trigger] symbols[b] + symbols[m - 1];
            assert(permutations_upto(symbols, m)[k] == row[kk]);
        }
    }
}

} // verus!
