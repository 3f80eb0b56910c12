use vstd::prelude::*;

use crate::text::texts;

verus! {

/// What `str::to_lowercase` makes of a string: its Unicode lowercase form.
pub uninterp spec fn lowercase(s: Seq<char>) -> Seq<char>;

/// `str::to_lowercase`: the lowercase equivalent of `s`, as a new string.
/// Claimed: the result depends on the characters of `s` alone; what those
/// characters are is left to the name `lowercase`.
#[verifier::external_body]
fn to_lowercase(s: &str) -> (r: String)
    ensures
        r@ == lowercase(s@),
{
    s.to_lowercase()
}

/// The book-ticker stream of the exchange for a trading symbol.
pub open spec fn ticker_stream_of(symbol: Seq<char>) -> Seq<char> {
    lowercase(symbol) + "@bookTicker"@
}

/// The book-ticker stream names for `symbols`, in order.
pub fn book_ticker_streams(symbols: &Vec<String>) -> (r: Vec<String>)
    ensures
        texts(r@) == texts(symbols@).map_values(|s: Seq<char>| ticker_stream_of(s)),
{
    let mut out: Vec<String> = Vec::new();
    let mut i: usize = 0;
    while i < symbols.len()
        invariant
            i <= symbols@.len(),
            texts(out@) =~= texts(symbols@.take(i as int)).map_values(|s: Seq<char>| ticker_stream_of(s)),
        decreases symbols@.len() - i,
    {
        let stream = to_lowercase(symbols[i].as_str()).concat("@bookTicker");
        let ghost prev = out@;
        out.push(stream);
        proof {
            let f = |s: Seq<char>| ticker_stream_of(s);
            assert(texts(symbols@.take(i + 1)) =~= texts(symbols@.take(i as int)).push(symbols@[i as int]@));
            assert(texts(out@) =~= texts(prev).push(ticker_stream_of(symbols@[i as int]@)));
            assert(texts(symbols@.take(i as int)).push(symbols@[i as int]@).map_values(f)
                =~= texts(symbols@.take(i as int)).map_values(f).push(f(symbols@[i as int]@)));
        }
        i = i + 1;
    }
    assert(symbols@.take(symbols@.len() as int) =~= symbols@);
    out
}

/// `parts` joined with `sep` between each two of them.
pub open spec fn joined(parts: Seq<Seq<char>>, sep: Seq<char>) -> Seq<char>
    decreases parts.len(),
{
    if parts.len() == 0 {
        Seq::empty()
    } else if parts.len() == 1 {
        parts[0]
    } else {
        joined(parts.drop_last(), sep) + sep + parts.last()
    }
}

/// The subscription path for a combined stream of `streams`.
pub open spec fn subscription_of(streams: Seq<Seq<char>>) -> Seq<char> {
    "stream?streams="@ + joined(streams, "/"@)
}

/// Builds the subscription path that combines all `streams` into one
/// connection.
pub fn combined_subscription(streams: &Vec<String>) -> (r: String)
    ensures
        r@ == subscription_of(texts(streams@)),
{
    let ghost parts = texts(streams@);
    let mut body = String::new();
    let mut i: usize = 0;
    while i < streams.len()
        invariant
            i <= streams@.len(),
            parts == texts(streams@),
            body@ == joined(parts.take(i as int), "/"@),
        decreases streams@.len() - i,
    {
        proof {
            assert(parts.take(i + 1).drop_last() =~= parts.take(i as int));
            assert(parts.take(i + 1).last() == streams@[i as int]@);
        }
        if i > 0 {
            body.append("/");
        } else {
            assert(parts.take(1)[0] == streams@[0]@);
        }
        body.append(streams[i].as_str());
        i = i + 1;
    }
    assert(parts.take(streams@.len() as int) =~= parts);
    String::from_str("stream?streams=").concat(body.as_str())
}

/// The symbols among `candidates` for which the exchange quoted a price.
pub open spec fn quoted_symbols(candidates: Seq<Seq<char>>, quoted: Seq<bool>, n: int) -> Seq<Seq<char>>
    decreases n,
{
    if n <= 0 || n > candidates.len() {
        Seq::empty()
    } else if quoted[n - 1] {
        quoted_symbols(candidates, quoted, n - 1).push(candidates[n - 1])
    } else {
        quoted_symbols(candidates, quoted, n - 1)
    }
}

/// Keeps the candidate symbols that the exchange knows: `quoted[i]` tells
/// whether asking for the price of `candidates[i]` succeeded.
pub fn known_symbols(candidates: &Vec<String>, quoted: &Vec<bool>) -> (r: Vec<String>)
    requires
        quoted@.len() == candidates@.len(),
    ensures
        texts(r@) == quoted_symbols(texts(candidates@), quoted@, candidates@.len() as int),
{
    let mut out: Vec<String> = Vec::new();
    let mut i: usize = 0;
    while i < candidates.len()
        invariant
            i <= candidates@.len(),
            quoted@.len() == candidates@.len(),
            texts(out@) == quoted_symbols(texts(candidates@), quoted@, i as int),
        decreases candidates@.len() - i,
    {
        if quoted[i] {
            let ghost prev = out@;
            out.push(candidates[i].clone());
            assert(texts(out@) =~= texts(prev).push(candidates@[i as int]@));
        }
        i = i + 1;
    }
    out
}

/// The symbols kept are built candidate by candidate, in order: none before
/// the first, and each candidate is appended exactly when its own flag says
/// the exchange quoted it.
pub proof fn lemma_quoted_symbols_step(candidates: Seq<Seq<char>>, quoted: Seq<bool>, n: int)
    requires
        quoted.len() == candidates.len(),
        0 <= n < candidates.len(),
    ensures
        quoted_symbols(candidates, quoted, 0) == Seq::<Seq<char>>::empty(),
        quoted[n] ==> quoted_symbols(candidates, quoted, n + 1) == quoted_symbols(
            candidates,
            quoted,
            n,
        ).push(candidates[n]),
        !quoted[n] ==> quoted_symbols(candidates, quoted, n + 1) == quoted_symbols(
            candidates,
            quoted,
            n,
        ),
{
}

/// When every flag is set all candidates are kept, in order, and when none
/// is set nothing is kept.
pub proof fn lemma_quoted_symbols_extremes(candidates: Seq<Seq<char>>, quoted: Seq<bool>, n: int)
    requires
        quoted.len() == candidates.len(),
        0 <= n <= candidates.len(),
    ensures
        (forall|i: int| 0 <= i < n ==> quoted[i]) ==> quoted_symbols(candidates, quoted, n)
            == candidates.take(n),
        (forall|i: int| 0 <= i < n ==> !quoted[i]) ==> quoted_symbols(candidates, quoted, n).len()
            == 0,
    decreases n,
{
    if n > 0 {
        lemma_quoted_symbols_extremes(candidates, quoted, n - 1);
        if forall|i: int| 0 <= i < n ==> quoted[i] {
            assert(quoted[n - 1]);
            assert(candidates.take(n) =~= candidates.take(n - 1).push(candidates[n - 1]));
        }
        if forall|i: int| 0 <= i < n ==> !quoted[i] {
            assert(!quoted[n - 1]);
        }
    } else {
        assert(candidates.take(0) =~= Seq::<Seq<char>>::empty());
    }
}

} // verus!
