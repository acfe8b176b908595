# dex

A verified model of two contracts written against a zero-knowledge
contract SDK: a fungible token and an exchange for a pair of such tokens.

Each entry of a contract is a circuit: it reads slots of contract storage,
enforces constraints, and emits writes ("diffs") and, for signed entries, an
approval request (nonce, message, signer). Here each entry is an executable
function from the storage of all contracts to `None` (some constraint has no
solution) or an `Outcome` (the writes, in order, and the approval). Its
contract states the outcome exactly, through a spec function per entry.

## Layout

- `src/word.rs`: `Word`, a storage key or value. Hashes (`hash2to1`,
  `hash`, `constant_hash_of_str`) are held by what they were computed from,
  so two keys name the same slot exactly when they were derived the same
  way. Numbers are `u128`; `u128_add` and `u128_sub` are checked.
- `src/args.rs`: the names of call arguments, and whether an entry gets
  every argument its circuit reads.
- `src/chain.rs`: `Chain`, the storage of every contract (an unwritten slot
  reads as zero), with `read`, `write` and `apply`; `Outcome`, `Approval`,
  `SlotNode`.
- `src/token.rs`: the token's entries `init`, `transfer`, `collect`, `name`,
  `total_supply`, `decimal`, `balance_of`, and `Token`, which dispatches a call
  by the address of the entry it is sent to.
- `src/dex.rs`: the exchange's entries `init`, `deposit`, `deposit_reduce`,
  `deposit_collect_auth`, `withdraw`, `withdraw_reduce`,
  `withdraw_swap_auth`, `swap`, `add_liquidity`, `remove_liquidity`,
  `liquidity_reduce`, and `Dex`.
- `src/laws.rs`: properties across calls (a transfer and its collect move
  exactly the amount; an inbox pays out once; each contract is initialised
  once; the token's balances and open inboxes add up to its supply; a
  queue read through snapshots is walked one write at a time, so deposits
  queued once are credited once and in order; exchange balances move only
  through deposit reduction, withdrawal and adding liquidity; ...). The same
  deposit key written twice to its queue (one inbox deposited twice before
  it is collected) is credited twice.
- `app/main.rs`: a session that funds two tokens, sets up the exchange and
  sends funds to it, printing balances.

## What the model takes as given

- Hashes do not collide, and four field elements that are not all zero
  (`Word::Felts`, such as an address) are never the encoding of a number.
  Four zero elements are the zero word (`Word::felts` builds either).
- The signature and nonce checks behind an approval, and the derivation of
  an address from a verifying key, are the SDK's; entries take the signer's
  address and return what is to be approved.
- Entries that walk a queue read its last change (`SlotNode`: the slot's
  previous and new value) from the contract's snapshot, which they take as
  a `Chain`: the history of writes up to the snapshot. Which snapshot a call
  sees is the SDK's choice.
- A contract hands each entry only the arguments named in that entry's
  list. An entry whose circuit reads an argument its list leaves out has no
  value for that input, so `Token::execute` and `Dex::execute` refuse it
  (`balance_of`; `withdraw_swap_auth`, `swap`, `add_liquidity`,
  `remove_liquidity`). The entry functions themselves take every argument.
- `withdraw` reads the pool's token from the exchange's own storage.
- `withdraw_swap_auth` takes the nonce of the inbox it names as its
  `nonce` argument.
