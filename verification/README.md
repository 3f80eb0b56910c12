# osiris

A liquidity bot for the Penumbra DEX that replicates an exchange's best bid
and ask into liquidity positions. This crate holds its decision logic, with
contracts proved by Verus:

- `feed`, `quote_filter`, `reconnect`: the price feed's stream names, which
  quotes are passed on, and the backoff between reconnections.
- `market`, `node`, `text`: trading symbols, their markets, endpoint handling.
- `notes`, `ownership`, `positions`, `rebalance`: balances, which positions the
  wallet owns, and the plan that replaces them for each quote.
- `ledger`, `trader`: at most one update per symbol and block.
- `response`: the outcome of a dispensing request.

`app/` is the program around it: command line, exchange websocket, chain
queries, transaction building, and the price and spread arithmetic, which is
done in floating point.
