use vstd::prelude::*;

use crate::symbol_map::SymbolMap;

verus! {

/// The part of a best bid/ask update from the exchange's book-ticker stream
/// that decides whether it is passed on to the trader.
#[derive(Debug)]
pub struct BookQuote {
    /// Trading symbol, such as `ETHBTC`.
    pub symbol: String,
    /// Order-book update id; later updates carry greater ids.
    pub update_id: u64,
    /// Best bid price, as the exchange wrote it.
    pub best_bid: String,
    /// Best ask price, as the exchange wrote it.
    pub best_ask: String,
}

impl Clone for BookQuote {
    fn clone(&self) -> (r: Self)
        ensures
            r == *self,
    {
        BookQuote {
            symbol: self.symbol.clone(),
            update_id: self.update_id,
            best_bid: self.best_bid.clone(),
            best_ask: self.best_ask.clone(),
        }
    }
}

/// Whether `quote` is worth passing on, given the last quote passed on for
/// its symbol: always for the first one, and afterwards only when it is a
/// later update that moves the best bid or the best ask.
pub open spec fn is_new_quote(last: Option<BookQuote>, quote: BookQuote) -> bool {
    match last {
        None => true,
        Some(l) => l.update_id < quote.update_id && (l.best_bid@ != quote.best_bid@
            || l.best_ask@ != quote.best_ask@),
    }
}

/// The last quotes passed on, after `quote` has been offered.
pub open spec fn after_offer(last: Map<Seq<char>, BookQuote>, quote: BookQuote) -> Map<
    Seq<char>,
    BookQuote,
> {
    if is_new_quote(last.get(quote.symbol@), quote) {
        last.insert(quote.symbol@, quote)
    } else {
        last
    }
}

/// Remembers, for each symbol, the last quote passed on to the trader.
pub struct QuoteFilter {
    last_sent: SymbolMap<BookQuote>,
}

impl View for QuoteFilter {
    type V = Map<Seq<char>, BookQuote>;

    closed spec fn view(&self) -> Map<Seq<char>, BookQuote> {
        self.last_sent@
    }
}

impl Clone for QuoteFilter {
    /// A filter that remembers the same quotes.
    fn clone(&self) -> (r: Self)
        ensures
            r@ == self@,
    {
        let r = QuoteFilter { last_sent: self.last_sent.clone() };
        proof {
            assert forall|k: Seq<char>| #[trigger] r@.contains_key(k) implies r@[k] == self@[k] by {
                assert(cloned::<BookQuote>(self@[k], r@[k]));
            }
            assert(r@ =~= self@);
        }
        r
    }
}

impl QuoteFilter {
    /// A filter that has passed nothing on yet.
    pub fn new() -> (f: Self)
        ensures
            f@ == Map::<Seq<char>, BookQuote>::empty(),
    {
        QuoteFilter { last_sent: SymbolMap::new() }
    }

    /// Decides whether `quote` is passed on, and remembers it if it is.
    pub fn offer(&mut self, quote: BookQuote) -> (forward: bool)
        ensures
            forward == is_new_quote(old(self)@.get(quote.symbol@), quote),
            final(self)@ == after_offer(old(self)@, quote),
            !old(self)@.contains_key(quote.symbol@) ==> forward,
            old(self)@.contains_key(quote.symbol@) ==> (forward <==> (
            old(self)@[quote.symbol@].update_id < quote.update_id && (
            old(self)@[quote.symbol@].best_bid@ != quote.best_bid@
                || old(self)@[quote.symbol@].best_ask@ != quote.best_ask@))),
    {
        let forward = match self.last_sent.get(&quote.symbol) {
            None => true,
            Some(last) => last.update_id < quote.update_id && (!(last.best_bid == quote.best_bid)
                || !(last.best_ask == quote.best_ask)),
        };
        if forward {
            let symbol = quote.symbol.clone();
            self.last_sent.insert(symbol, quote);
        }
        forward
    }
}

/// A quote that was just passed on is not passed on a second time.
pub proof fn lemma_repeat_rejected(last: Map<Seq<char>, BookQuote>, quote: BookQuote)
    requires
        is_new_quote(last.get(quote.symbol@), quote),
    ensures
        !is_new_quote(after_offer(last, quote).get(quote.symbol@), quote),
        after_offer(after_offer(last, quote), quote) == after_offer(last, quote),
{
}

/// Every quote passed on for a symbol that already had one carries a greater
/// update id than the one before it.
pub proof fn lemma_forwarded_ids_increase(last: Map<Seq<char>, BookQuote>, quote: BookQuote)
    requires
        last.contains_key(quote.symbol@),
        is_new_quote(last.get(quote.symbol@), quote),
    ensures
        quote.update_id > last[quote.symbol@].update_id,
{
}

/// The update id remembered for a symbol never goes down, and offering a quote
/// never forgets a symbol.
pub proof fn lemma_remembered_id_never_decreases(
    last: Map<Seq<char>, BookQuote>,
    quote: BookQuote,
    symbol: Seq<char>,
)
    requires
        last.contains_key(symbol),
    ensures
        after_offer(last, quote).contains_key(symbol),
        after_offer(last, quote)[symbol].update_id >= last[symbol].update_id,
{
}

/// A later update that leaves both the best bid and the best ask as they were
/// is not passed on.
pub proof fn lemma_unchanged_prices_rejected(
    last: Map<Seq<char>, BookQuote>,
    quote: BookQuote,
    later: BookQuote,
)
    requires
        is_new_quote(last.get(quote.symbol@), quote),
        later.symbol@ == quote.symbol@,
        later.best_bid@ == quote.best_bid@,
        later.best_ask@ == quote.best_ask@,
    ensures
        !is_new_quote(after_offer(last, quote).get(later.symbol@), later),
{
}

/// Quotes for one symbol leave what is remembered for every other symbol as
/// it was.
pub proof fn lemma_other_symbols_kept(
    last: Map<Seq<char>, BookQuote>,
    quote: BookQuote,
    other: Seq<char>,
)
    requires
        other != quote.symbol@,
    ensures
        after_offer(last, quote).get(other) == last.get(other),
{
}

/// The first quote for a symbol is always passed on, and so is every later
/// update (greater update id) that changes the best bid or the best ask, by
/// any character; an update that is not later, or that changes neither
/// price, is not.
pub proof fn lemma_price_moves_passed_on(last: Map<Seq<char>, BookQuote>, quote: BookQuote)
    ensures
        !last.contains_key(quote.symbol@) ==> is_new_quote(last.get(quote.symbol@), quote)
            && after_offer(last, quote) == last.insert(quote.symbol@, quote),
        last.contains_key(quote.symbol@) ==> (is_new_quote(last.get(quote.symbol@), quote) <==> (
        last[quote.symbol@].update_id < quote.update_id && (last[quote.symbol@].best_bid@
            != quote.best_bid@ || last[quote.symbol@].best_ask@ != quote.best_ask@))),
        last.contains_key(quote.symbol@) && last[quote.symbol@].update_id < quote.update_id && (
        last[quote.symbol@].best_bid@ != quote.best_bid@ || last[quote.symbol@].best_ask@
            != quote.best_ask@) ==> after_offer(last, quote) == last.insert(quote.symbol@, quote),
{
}

/// The last quotes passed on after each of `quotes` has been offered in turn.
pub open spec fn after_offers(last: Map<Seq<char>, BookQuote>, quotes: Seq<BookQuote>) -> Map<
    Seq<char>,
    BookQuote,
>
    decreases quotes.len(),
{
    if quotes.len() == 0 {
        last
    } else {
        after_offer(after_offers(last, quotes.drop_last()), quotes.last())
    }
}

/// The quotes passed on, in order, when `quotes` are offered in turn to a
/// filter that remembers `last`.
pub open spec fn passed_on(last: Map<Seq<char>, BookQuote>, quotes: Seq<BookQuote>) -> Seq<
    BookQuote,
>
    decreases quotes.len(),
{
    if quotes.len() == 0 {
        Seq::empty()
    } else {
        let before = after_offers(last, quotes.drop_last());
        let earlier = passed_on(last, quotes.drop_last());
        if is_new_quote(before.get(quotes.last().symbol@), quotes.last()) {
            earlier.push(quotes.last())
        } else {
            earlier
        }
    }
}

/// `last` with each quote of `sent` remembered for its symbol, in turn.
pub open spec fn remember_all(last: Map<Seq<char>, BookQuote>, sent: Seq<BookQuote>) -> Map<
    Seq<char>,
    BookQuote,
>
    decreases sent.len(),
{
    if sent.len() == 0 {
        last
    } else {
        remember_all(last, sent.drop_last()).insert(sent.last().symbol@, sent.last())
    }
}

/// What the filter remembers after a run of offers is what was passed on,
/// each quote remembered for its symbol.
pub proof fn lemma_remembers_what_was_passed_on(last: Map<Seq<char>, BookQuote>, quotes: Seq<BookQuote>)
    ensures
        after_offers(last, quotes) == remember_all(last, passed_on(last, quotes)),
    decreases quotes.len(),
{
    if quotes.len() > 0 {
        let pre = quotes.drop_last();
        lemma_remembers_what_was_passed_on(last, pre);
        let f = passed_on(last, pre);
        let q = quotes.last();
        assert(f.push(q).drop_last() =~= f);
    }
}

/// Each quote passed on was new against the quote remembered for its
/// symbol just before it: the last one passed on for that symbol, or, if none
/// was, the one remembered at the start.
pub proof fn lemma_each_passed_on_is_new(last: Map<Seq<char>, BookQuote>, quotes: Seq<BookQuote>)
    ensures
        forall|j: int|
            0 <= j < passed_on(last, quotes).len() ==> is_new_quote(
                remember_all(last, passed_on(last, quotes).take(j)).get(
                    passed_on(last, quotes)[j].symbol@,
                ),
                #[trigger] passed_on(last, quotes)[j],
            ),
    decreases quotes.len(),
{
    if quotes.len() > 0 {
        let pre = quotes.drop_last();
        lemma_each_passed_on_is_new(last, pre);
        lemma_remembers_what_was_passed_on(last, pre);
        let f0 = passed_on(last, pre);
        let f = passed_on(last, quotes);
        assert forall|j: int| 0 <= j < f.len() implies is_new_quote(
            remember_all(last, f.take(j)).get(f[j].symbol@),
            #[trigger] f[j],
        ) by {
            if j < f0.len() {
                assert(f.take(j) =~= f0.take(j));
                assert(f[j] == f0[j]);
            } else {
                assert(f.take(j) =~= f0);
            }
        }
    }
}

proof fn lemma_remember_all_latest(last: Map<Seq<char>, BookQuote>, sent: Seq<BookQuote>, i: int, j: int)
    requires
        0 <= i < j <= sent.len(),
        forall|k: int| i < k < j ==> (#[trigger] sent[k]).symbol@ != sent[i].symbol@,
    ensures
        remember_all(last, sent.take(j)).get(sent[i].symbol@) == Some(sent[i]),
    decreases j - i,
{
    assert(sent.take(j).drop_last() =~= sent.take(j - 1));
    assert(sent.take(j).last() == sent[j - 1]);
    if j > i + 1 {
        lemma_remember_all_latest(last, sent, i, j - 1);
    }
}

proof fn lemma_remember_all_untouched(last: Map<Seq<char>, BookQuote>, sent: Seq<BookQuote>, j: int, symbol: Seq<char>)
    requires
        0 <= j <= sent.len(),
        forall|k: int| 0 <= k < j ==> (#[trigger] sent[k]).symbol@ != symbol,
    ensures
        remember_all(last, sent.take(j)).get(symbol) == last.get(symbol),
    decreases j,
{
    if j > 0 {
        assert(sent.take(j).drop_last() =~= sent.take(j - 1));
        assert(sent.take(j).last() == sent[j - 1]);
        lemma_remember_all_untouched(last, sent, j - 1, symbol);
    } else {
        assert(sent.take(0) =~= Seq::<BookQuote>::empty());
    }
}

/// Of two quotes passed on for the same symbol with none for it in between,
/// the later one carries a greater update id and a different best bid or
/// best ask.
pub proof fn lemma_consecutive_passed_on(last: Map<Seq<char>, BookQuote>, quotes: Seq<BookQuote>, i: int, j: int)
    requires
        0 <= i < j < passed_on(last, quotes).len(),
        passed_on(last, quotes)[i].symbol@ == passed_on(last, quotes)[j].symbol@,
        forall|k: int|
            i < k < j ==> (#[trigger] passed_on(last, quotes)[k]).symbol@ != passed_on(
                last,
                quotes,
            )[i].symbol@,
    ensures
        ({
            let f = passed_on(last, quotes);
            &&& f[i].update_id < f[j].update_id
            &&& (f[i].best_bid@ != f[j].best_bid@ || f[i].best_ask@ != f[j].best_ask@)
        }),
{
    let f = passed_on(last, quotes);
    lemma_each_passed_on_is_new(last, quotes);
    lemma_remember_all_latest(last, f, i, j);
    assert(is_new_quote(remember_all(last, f.take(j)).get(f[j].symbol@), f[j]));
}

/// The first quote passed on for a symbol that the filter already remembered
/// carries a greater update id than the remembered one, and a different best
/// bid or best ask.
pub proof fn lemma_first_passed_on_after_remembered(
    last: Map<Seq<char>, BookQuote>,
    quotes: Seq<BookQuote>,
    j: int,
)
    requires
        0 <= j < passed_on(last, quotes).len(),
        last.contains_key(passed_on(last, quotes)[j].symbol@),
        forall|k: int|
            0 <= k < j ==> (#[trigger] passed_on(last, quotes)[k]).symbol@ != passed_on(
                last,
                quotes,
            )[j].symbol@,
    ensures
        ({
            let f = passed_on(last, quotes);
            let prev = last[f[j].symbol@];
            &&& prev.update_id < f[j].update_id
            &&& (prev.best_bid@ != f[j].best_bid@ || prev.best_ask@ != f[j].best_ask@)
        }),
{
    let f = passed_on(last, quotes);
    lemma_each_passed_on_is_new(last, quotes);
    lemma_remember_all_untouched(last, f, j, f[j].symbol@);
    assert(is_new_quote(remember_all(last, f.take(j)).get(f[j].symbol@), f[j]));
}

} // verus!
