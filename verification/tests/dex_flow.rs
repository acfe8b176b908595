use dex::chain::{Approval, Chain, Outcome, SlotNode};
use dex::dex::{DexCall, DexEntry, MINIMUM_LIQUIDITY};
use dex::word::{hash_pair, Label, Word};
use dex::{dex as exchange, token, Dex};

fn addr(a: u64) -> Word {
    Word::felts(a, a + 1, a + 2, a + 3)
}

fn h(a: &Word, b: &Word) -> Word {
    hash_pair(a.copy(), b.copy())
}

fn tag(l: Label) -> Word {
    Word::Tag(l)
}

fn num(n: u128) -> Word {
    Word::Num(n)
}

fn run(chain: &mut Chain, this: &Word, r: Option<Outcome>) -> Outcome {
    let o = r.expect("the entry was refused");
    chain.apply(this, &o.diffs);
    o
}

fn token_inbox(sender: &Word, receiver: &Word, nonce: &Word) -> Word {
    h(&h(&tag(Label::Inbox), sender), &h(receiver, nonce))
}

fn dex_balance(owner: &Word, token: &Word) -> Word {
    h(&h(&tag(Label::Balance), owner), token)
}

struct World {
    chain: Chain,
    t0: Word,
    t1: Word,
    d: Word,
    user: Word,
    pool: Word,
}

/// Two tokens, each with 1000 credited to the user, and an exchange
/// initialised with the pair.
fn world() -> World {
    let mut chain = Chain::new();
    let t0 = addr(100);
    let t1 = addr(200);
    let d = addr(300);
    let user = addr(1);
    let r = token::init(&chain, &t0, &user, &num(1000), &num(0));
    run(&mut chain, &t0, r);
    let r = token::init(&chain, &t1, &user, &num(1000), &num(0));
    run(&mut chain, &t1, r);
    let r = exchange::init(&chain, &d, &t0, &t1);
    run(&mut chain, &d, r);
    let pool = h(&h(&tag(Label::Pool), &t0), &t1);
    World { chain, t0, t1, d, user, pool }
}

#[test]
fn init_records_pool() {
    let w = world();
    assert_eq!(w.chain.read(&w.d, &tag(Label::Pool)), w.pool);
    assert_eq!(w.chain.read(&w.d, &h(&w.pool, &num(0))), w.t0);
    assert_eq!(w.chain.read(&w.d, &h(&w.pool, &Word::Ones)), w.t1);
    assert!(exchange::init(&w.chain, &w.d, &w.t0, &w.t1).is_none());
    assert!(exchange::init(&w.chain, &w.d, &addr(7), &addr(8)).is_none());
}

#[test]
fn init_refuses_equal_tokens() {
    let chain = Chain::new();
    // four zero field elements are the zero word
    assert_eq!(Word::felts(0, 0, 0, 0), num(0));
    assert!(exchange::init(&chain, &addr(300), &Word::felts(0, 0, 0, 0), &num(0)).is_none());
    assert!(exchange::init(&chain, &addr(300), &addr(100), &addr(100)).is_none());
    let o = exchange::init(&chain, &addr(300), &addr(100), &addr(200)).unwrap();
    assert_eq!(o.approval, None);
    assert_eq!(o.diffs.len(), 3);
}

#[test]
fn deposit_needs_matching_inbox() {
    let mut w = world();
    let n = num(5);
    // nothing in the inbox yet
    assert!(exchange::deposit(&w.chain, &w.d, &w.user, &num(100), &num(9), &n, &num(0)).is_none());
    let r = token::transfer(&w.chain, &w.t0, &w.user, &w.d, &num(100), &n);
    run(&mut w.chain, &w.t0, r);
    assert!(exchange::deposit(&w.chain, &w.d, &w.user, &num(99), &num(9), &n, &num(0)).is_none());
    // flag 1 selects the other token, whose inbox is empty
    assert!(exchange::deposit(&w.chain, &w.d, &w.user, &num(100), &num(9), &n, &Word::Ones).is_none());
    let o = exchange::deposit(&w.chain, &w.d, &w.user, &num(100), &num(9), &n, &num(0)).unwrap();
    let inbox = token_inbox(&w.user, &w.d, &n);
    let key_token = h(&w.pool, &num(0));
    assert_eq!(
        o.diffs,
        vec![
            (h(&tag(Label::Inbox), &key_token), inbox.copy()),
            (h(&inbox, &num(0)), num(100)),
            (h(&inbox, &Word::Ones), w.user.copy()),
            (h(&inbox, &num(2)), w.t0.copy()),
            (h(&inbox, &num(3)), inbox.copy()),
        ]
    );
    assert_eq!(
        o.approval,
        Some(Approval { nonce: num(9), message: w.user.copy(), signer: w.user.copy() })
    );
}

#[test]
fn deposit_of_zero_refused() {
    let mut w = world();
    let n = num(5);
    let r = token::transfer(&w.chain, &w.t0, &w.user, &w.d, &num(0), &n);
    run(&mut w.chain, &w.t0, r);
    assert!(exchange::deposit(&w.chain, &w.d, &w.user, &num(0), &num(9), &n, &num(0)).is_none());
}

/// The user deposits `amount` of token 0 and the deposit is reduced.
fn deposit_and_reduce(w: &mut World, amount: u128, n: &Word) -> Word {
    let r = token::transfer(&w.chain, &w.t0, &w.user, &w.d, &num(amount), n);
    run(&mut w.chain, &w.t0, r);
    let r = exchange::deposit(&w.chain, &w.d, &w.user, &num(amount), &num(9), n, &num(0));
    run(&mut w.chain, &w.d, r);
    let inbox = token_inbox(&w.user, &w.d, n);
    let key_token = h(&w.pool, &num(0));
    // refused while the token's inbox is not yet collected
    assert!(exchange::deposit_reduce(&w.chain, &w.d, &w.chain, &key_token).is_none());
    let r = token::collect(&w.chain, &w.t0, &w.user, &w.d, &num(10), n);
    run(&mut w.chain, &w.t0, r);
    let r = exchange::deposit_reduce(&w.chain, &w.d, &w.chain, &key_token);
    run(&mut w.chain, &w.d, r);
    inbox
}

#[test]
fn deposit_reduce_refuses_immediate_replay() {
    let mut w = world();
    let n = num(5);
    let inbox = deposit_and_reduce(&mut w, 100, &n);
    assert_eq!(w.chain.read(&w.d, &dex_balance(&w.user, &w.t0)), num(100));
    assert_eq!(w.chain.read(&w.d, &h(&tag(Label::Deposit), &w.t0)), inbox);
    let key_token = h(&w.pool, &num(0));
    assert!(exchange::deposit_reduce(&w.chain, &w.d, &w.chain, &key_token).is_none());
    // the exchange's token balance holds the deposit
    assert_eq!(w.chain.read(&w.t0, &h(&tag(Label::Balance), &w.d)), num(100));
}

/// The user transfers 10 of token 0 to the exchange and deposits that
/// inbox `times` times.
fn deposited(times: usize) -> World {
    let mut w = world();
    let n = num(5);
    let r = token::transfer(&w.chain, &w.t0, &w.user, &w.d, &num(10), &n);
    run(&mut w.chain, &w.t0, r);
    for _ in 0..times {
        let r = exchange::deposit(&w.chain, &w.d, &w.user, &num(10), &num(9), &n, &num(0));
        run(&mut w.chain, &w.d, r);
    }
    w
}

#[test]
fn deposit_made_twice_is_credited_twice() {
    // the same inbox deposited twice before it is collected is written twice
    // to the queue; its two changes (0 to k, then k to k) are each applied
    let snapshot = deposited(1);
    let mut w = deposited(2);
    let key_token = h(&w.pool, &num(0));
    let r = token::collect(&w.chain, &w.t0, &w.user, &w.d, &num(10), &num(5));
    run(&mut w.chain, &w.t0, r);
    let r = exchange::deposit_reduce(&w.chain, &w.d, &snapshot.chain, &key_token);
    run(&mut w.chain, &w.d, r);
    assert_eq!(w.chain.read(&w.d, &dex_balance(&w.user, &w.t0)), num(10));
    let inbox = token_inbox(&w.user, &w.d, &num(5));
    assert_eq!(
        w.chain.last_change(&w.d, &h(&tag(Label::Inbox), &key_token)),
        Some(SlotNode { prev: inbox.copy(), item: inbox.copy() })
    );
    let r = exchange::deposit_reduce(&w.chain, &w.d, &w.chain, &key_token);
    run(&mut w.chain, &w.d, r);
    assert_eq!(w.chain.read(&w.d, &dex_balance(&w.user, &w.t0)), num(20));
    // a queue the snapshot never wrote is refused
    assert!(exchange::deposit_reduce(&w.chain, &w.d, &w.chain, &addr(77)).is_none());
}

#[test]
fn deposit_collect_auth_moves_pointer() {
    let mut w = deposited(1);
    let inbox = token_inbox(&w.user, &w.d, &num(5));
    // nothing was written under the hash of "inbox" yet
    assert!(exchange::deposit_collect_auth(&w.chain, &w.d, &w.chain).is_none());
    w.chain.write(w.d.copy(), tag(Label::Inbox), inbox.copy());
    let o = exchange::deposit_collect_auth(&w.chain, &w.d, &w.chain).unwrap();
    assert_eq!(o.diffs, vec![(h(&tag(Label::Deposit), &w.t0), num(10))]);
    let r = token::collect(&w.chain, &w.t0, &w.user, &w.d, &num(10), &num(5));
    run(&mut w.chain, &w.t0, r);
    assert!(exchange::deposit_collect_auth(&w.chain, &w.d, &w.chain).is_none());
}

#[test]
fn withdraw_debits_and_queues() {
    let mut w = world();
    let n = num(5);
    deposit_and_reduce(&mut w, 100, &n);
    assert!(exchange::withdraw(&w.chain, &w.d, &w.user, &num(101), &num(20), &w.pool, &num(0)).is_none());
    let o = exchange::withdraw(&w.chain, &w.d, &w.user, &num(30), &num(20), &w.pool, &num(0)).unwrap();
    let message = h(&w.t0, &num(30));
    let request = h(&h(&h(&tag(Label::Withdraw), &w.user), &message), &num(20));
    let key_token = h(&w.pool, &num(0));
    assert_eq!(
        o.diffs,
        vec![
            (dex_balance(&w.user, &w.t0), num(70)),
            (h(&tag(Label::Withdraw), &key_token), request.copy()),
            (h(&request, &num(0)), w.user.copy()),
            (h(&request, &Word::Ones), w.t0.copy()),
            (h(&request, &num(2)), num(30)),
            (h(&request, &num(3)), num(20)),
        ]
    );
    assert_eq!(
        o.approval,
        Some(Approval { nonce: num(20), message, signer: w.user.copy() })
    );
    w.chain.apply(&w.d, &o.diffs);
    assert_eq!(w.chain.read(&w.d, &dex_balance(&w.user, &w.t0)), num(70));

    let r = exchange::withdraw_reduce(&w.chain, &w.d, &w.chain, &key_token);
    run(&mut w.chain, &w.d, r);
    let pointer = h(&tag(Label::WithdrawReduce), &key_token);
    assert_eq!(w.chain.read(&w.d, &pointer), request);
    assert_eq!(w.chain.read(&w.d, &request), Word::Ones);
    assert!(exchange::withdraw_reduce(&w.chain, &w.d, &w.chain, &key_token).is_none());

    // the authorisation takes a change whose item is zero
    let queue = h(&tag(Label::Withdraw), &key_token);
    assert!(exchange::withdraw_swap_auth(&w.chain, &w.d, &w.chain, &key_token, &num(6)).is_none());
    w.chain.write(w.d.copy(), queue.copy(), num(0));
    let o = exchange::withdraw_swap_auth(&w.chain, &w.d, &w.chain, &key_token, &num(6)).unwrap();
    let inbox = token_inbox(&w.d, &num(0), &num(6));
    assert_eq!(o.diffs, vec![(queue.copy(), inbox)]);
    // the next change, from zero to zero, does not start at the pointer
    w.chain.write(w.d.copy(), queue.copy(), num(0));
    assert!(exchange::withdraw_swap_auth(&w.chain, &w.d, &w.chain, &key_token, &num(6)).is_none());
}

#[test]
fn swap_checks_amounts_balance_and_reserve() {
    let mut w = world();
    let a = w.user.copy();
    let flag_0 = num(0);
    let flag_1 = Word::Ones;
    // the swap looks its tokens up under hash2to1("pool", flag)
    w.chain.write(w.d.copy(), h(&tag(Label::Pool), &flag_0), w.t0.copy());
    w.chain.write(w.d.copy(), h(&tag(Label::Pool), &flag_1), w.t1.copy());
    w.chain.write(w.d.copy(), dex_balance(&a, &w.t0), num(50));
    w.chain.write(w.d.copy(), h(&tag(Label::Reserve), &w.t1), num(80));
    assert!(exchange::swap(&w.chain, &w.d, &a, &num(3), &flag_0, &flag_1, &num(10), &num(11)).is_none());
    assert!(exchange::swap(&w.chain, &w.d, &a, &num(3), &flag_0, &flag_1, &num(60), &num(60)).is_none());
    w.chain.write(w.d.copy(), dex_balance(&a, &w.t0), num(100));
    assert!(exchange::swap(&w.chain, &w.d, &a, &num(3), &flag_0, &flag_1, &num(90), &num(90)).is_none());
    let o = exchange::swap(&w.chain, &w.d, &a, &num(3), &flag_0, &flag_1, &num(60), &num(60)).unwrap();
    let key = h(&h(&tag(Label::LiquidityInbox), &a), &num(3));
    assert_eq!(
        o.diffs,
        vec![
            (tag(Label::LiquidityInbox), key.copy()),
            (h(&key, &num(0)), num(60)),
            (h(&key, &Word::Ones), num(60)),
            (h(&key, &num(2)), tag(Label::SwapLiquidity)),
            (h(&key, &num(3)), a.copy()),
        ]
    );
    assert_eq!(o.approval, Some(Approval { nonce: num(3), message: key, signer: a }));
}

#[test]
fn add_liquidity_debits_both_tokens() {
    let mut w = world();
    let a = w.user.copy();
    w.chain.write(w.d.copy(), dex_balance(&a, &w.t0), num(100));
    w.chain.write(w.d.copy(), dex_balance(&a, &w.t1), num(50));
    assert!(exchange::add_liquidity(&w.chain, &w.d, &a, &w.pool, &num(4), &num(10), &num(51)).is_none());
    let o = exchange::add_liquidity(&w.chain, &w.d, &a, &w.pool, &num(4), &num(30), &num(20)).unwrap();
    let key = h(&h(&tag(Label::LiquidityInbox), &a), &num(4));
    assert_eq!(o.diffs[0], (dex_balance(&a, &w.t0), num(70)));
    assert_eq!(o.diffs[1], (dex_balance(&a, &w.t1), num(30)));
    assert_eq!(o.diffs[5], (h(&key, &num(2)), tag(Label::AddLiquidiy)));
    assert_eq!(o.diffs.len(), 7);
}

#[test]
fn remove_liquidity_checks_liquidity() {
    let mut w = world();
    let a = w.user.copy();
    assert!(exchange::remove_liquidity(&w.chain, &w.d, &a, &num(4), &num(1), &num(2)).is_none());
    assert!(exchange::remove_liquidity(&w.chain, &w.d, &a, &num(4), &num(1), &num(1)).is_none());
    let pool_slot = tag(Label::Pool);
    let token_0 = w.chain.read(&w.d, &h(&pool_slot, &num(0)));
    let token_1 = w.chain.read(&w.d, &h(&pool_slot, &Word::Ones));
    let owner = h(&tag(Label::ReserveLiquidity), &a);
    w.chain.write(w.d.copy(), h(&owner, &token_0), num(5));
    w.chain.write(w.d.copy(), h(&owner, &token_1), num(5));
    let o = exchange::remove_liquidity(&w.chain, &w.d, &a, &num(4), &num(5), &num(5)).unwrap();
    let key = h(&h(&tag(Label::LiquidityInbox), &a), &num(4));
    assert_eq!(o.diffs[3], (h(&key, &num(2)), tag(Label::RemoveLiquidity)));
    assert!(exchange::remove_liquidity(&w.chain, &w.d, &a, &num(4), &num(6), &num(6)).is_none());
}

/// Files a liquidity request of `method` for the user and returns its key.
fn file_request(w: &mut World, method: Label, amount_0: u128, amount_1: u128, nonce: u128) -> Word {
    let key = h(&h(&tag(Label::LiquidityInbox), &w.user), &num(nonce));
    w.chain.write(w.d.copy(), h(&key, &num(0)), num(amount_0));
    w.chain.write(w.d.copy(), h(&key, &Word::Ones), num(amount_1));
    w.chain.write(w.d.copy(), h(&key, &num(2)), tag(method));
    w.chain.write(w.d.copy(), h(&key, &num(3)), w.user.copy());
    w.chain.write(w.d.copy(), tag(Label::LiquidityInbox), key.copy());
    key
}

#[test]
fn liquidity_reduce_applies_add() {
    let mut w = world();
    let a = w.user.copy();
    w.chain.write(w.d.copy(), dex_balance(&a, &w.t0), num(100));
    w.chain.write(w.d.copy(), dex_balance(&a, &w.t1), num(100));
    let r = exchange::add_liquidity(&w.chain, &w.d, &a, &w.pool, &num(4), &num(30), &num(20));
    run(&mut w.chain, &w.d, r);
    let key = h(&h(&tag(Label::LiquidityInbox), &a), &num(4));
    // every reserve update is checked whatever the method: the second
    // reserve must cover the second amount
    assert!(exchange::liquidity_reduce(&w.chain, &w.d, &w.chain).is_none());
    let token_key_0 = h(&w.pool, &num(0));
    let token_key_1 = h(&w.pool, &Word::Ones);
    let reserve_0 = h(&tag(Label::ReserveLiquidity), &token_key_0);
    let reserve_1 = h(&tag(Label::ReserveLiquidity), &token_key_1);
    let owner = h(&tag(Label::ReserveLiquidity), &a);
    w.chain.write(w.d.copy(), reserve_0.copy(), num(500));
    w.chain.write(w.d.copy(), reserve_1.copy(), num(400));
    w.chain.write(w.d.copy(), h(&owner, &token_key_0), num(7));
    w.chain.write(w.d.copy(), h(&owner, &token_key_1), num(9));
    let o = exchange::liquidity_reduce(&w.chain, &w.d, &w.chain).unwrap();
    assert_eq!(
        o.diffs,
        vec![
            (reserve_0.copy(), num(530)),
            (reserve_1.copy(), num(420)),
            (reserve_0.copy(), num(37)),
            (h(&owner, &token_key_1), num(27)),
            (tag(Label::LiquidityReduce), key.copy()),
        ]
    );
    w.chain.apply(&w.d, &o.diffs);
    assert_eq!(w.chain.read(&w.d, &reserve_0), num(37));
    assert!(exchange::liquidity_reduce(&w.chain, &w.d, &w.chain).is_none());
}

#[test]
fn liquidity_reduce_applies_swap() {
    let mut w = world();
    let key = file_request(&mut w, Label::SwapLiquidity, 10, 10, 8);
    let token_key_0 = h(&w.pool, &num(0));
    let token_key_1 = h(&w.pool, &Word::Ones);
    let reserve_0 = h(&tag(Label::ReserveLiquidity), &token_key_0);
    let reserve_1 = h(&tag(Label::ReserveLiquidity), &token_key_1);
    w.chain.write(w.d.copy(), reserve_0.copy(), num(100));
    w.chain.write(w.d.copy(), reserve_1.copy(), num(100));
    let o = exchange::liquidity_reduce(&w.chain, &w.d, &w.chain).unwrap();
    assert_eq!(o.diffs[0], (reserve_0.copy(), num(110)));
    assert_eq!(o.diffs[1], (reserve_1.copy(), num(90)));
    assert_eq!(o.diffs[2], (reserve_0.copy(), num(0)));
}

#[test]
fn liquidity_reduce_leaves_remove_requests() {
    let mut w = world();
    let key = file_request(&mut w, Label::RemoveLiquidity, 10, 10, 8);
    let token_key_0 = h(&w.pool, &num(0));
    let token_key_1 = h(&w.pool, &Word::Ones);
    let reserve_0 = h(&tag(Label::ReserveLiquidity), &token_key_0);
    let reserve_1 = h(&tag(Label::ReserveLiquidity), &token_key_1);
    w.chain.write(w.d.copy(), reserve_0.copy(), num(100));
    w.chain.write(w.d.copy(), reserve_1.copy(), num(100));
    let o = exchange::liquidity_reduce(&w.chain, &w.d, &w.chain).unwrap();
    assert_eq!(o.diffs[0], (reserve_0.copy(), num(100)));
    assert_eq!(o.diffs[1], (reserve_1.copy(), num(100)));
    w.chain.apply(&w.d, &o.diffs);
    assert_eq!(w.chain.read(&w.d, &tag(Label::LiquidityReduce)), key);
    // a request under the tag the reduction tests for is removed
    w.chain.write(w.d.copy(), reserve_0.copy(), num(100));
    let key = file_request(&mut w, Label::RemoveLiquidiy, 10, 10, 9);
    let o = exchange::liquidity_reduce(&w.chain, &w.d, &w.chain).unwrap();
    assert_eq!(o.diffs[0], (reserve_0.copy(), num(90)));
    assert_eq!(o.diffs[1], (reserve_1.copy(), num(90)));
    w.chain.apply(&w.d, &o.diffs);
    assert_eq!(w.chain.read(&w.d, &tag(Label::LiquidityReduce)), key);
    assert!(exchange::liquidity_reduce(&w.chain, &w.d, &w.chain).is_none());
}

fn sample_dex() -> Dex {
    Dex::new(
        addr(10),
        addr(20),
        addr(30),
        addr(40),
        addr(50),
        addr(60),
        addr(70),
        addr(80),
        addr(90),
        addr(110),
    )
}

#[test]
fn dex_entries_by_address() {
    let dex = sample_dex();
    assert_eq!(dex.removeliquity_address, addr(60));
    assert_eq!(dex.withdraw_swap_auth_address, addr(110));
    assert_eq!(dex.entry(&addr(10)), Some(DexEntry::Init));
    assert_eq!(dex.entry(&addr(20)), Some(DexEntry::Deposit));
    assert_eq!(dex.entry(&addr(30)), Some(DexEntry::Withdraw));
    assert_eq!(dex.entry(&addr(40)), Some(DexEntry::Swap));
    assert_eq!(dex.entry(&addr(50)), Some(DexEntry::AddLiquidity));
    assert_eq!(dex.entry(&addr(60)), Some(DexEntry::RemoveLiquidity));
    assert_eq!(dex.entry(&addr(70)), Some(DexEntry::DepositReduce));
    assert_eq!(dex.entry(&addr(80)), Some(DexEntry::DepositCollectAuth));
    assert_eq!(dex.entry(&addr(90)), Some(DexEntry::WithdrawReduce));
    assert_eq!(dex.entry(&addr(110)), Some(DexEntry::WithdrawSwapAuth));
    assert_eq!(dex.entry(&addr(120)), None);
    let chain = Chain::new();
    let call = DexCall::Init { token_0: addr(100), token_1: addr(200) };
    assert!(dex.execute(&chain, &addr(300), &chain, &addr(10), &call).is_some());
    assert!(dex.execute(&chain, &addr(300), &chain, &addr(20), &call).is_none());
}

#[test]
fn dex_execute_reaches_queue_entries() {
    let dex = sample_dex();
    let mut chain = Chain::new();
    let d = addr(300);
    let call = DexCall::WithdrawReduce { token: addr(7) };
    assert!(dex.execute(&chain, &d, &chain, &addr(90), &call).is_none());
    chain.write(d.copy(), h(&tag(Label::Withdraw), &addr(7)), num(5));
    assert!(dex.execute(&chain, &d, &chain, &addr(90), &call).is_some());
    // refused: nothing was written under the hash of "inbox"
    assert!(dex.execute(&chain, &d, &chain, &addr(80), &DexCall::DepositCollectAuth).is_none());
    chain.write(d.copy(), h(&tag(Label::Inbox), &addr(7)), num(5));
    let call = DexCall::DepositReduce { token: addr(7) };
    assert!(dex.execute(&chain, &d, &chain, &addr(70), &call).is_some());
}

#[test]
fn dex_execute_refuses_entries_missing_arguments() {
    let dex = sample_dex();
    let mut chain = Chain::new();
    let d = addr(300);
    let a = addr(1);
    // these succeed when called directly ...
    let remove = DexCall::RemoveLiquidity { sender: a.copy(), nonce: num(1), amount_0: num(0), amount_1: num(0) };
    assert!(exchange::remove_liquidity(&chain, &d, &a, &num(1), &num(0), &num(0)).is_some());
    // ... but the contract hands them no "token_0_amount", "pool", "flag_0" or "token"
    assert!(dex.execute(&chain, &d, &chain, &addr(60), &remove).is_none());
    let swap = DexCall::Swap {
        sender: a.copy(),
        nonce: num(1),
        flag_0: num(0),
        flag_1: num(0),
        amount_0: num(0),
        amount_1: num(0),
    };
    assert!(exchange::swap(&chain, &d, &a, &num(1), &num(0), &num(0), &num(0), &num(0)).is_some());
    assert!(dex.execute(&chain, &d, &chain, &addr(40), &swap).is_none());
    let add = DexCall::AddLiquidity { sender: a.copy(), pool: addr(9), nonce: num(1), amount_0: num(0), amount_1: num(0) };
    assert!(exchange::add_liquidity(&chain, &d, &a, &addr(9), &num(1), &num(0), &num(0)).is_some());
    assert!(dex.execute(&chain, &d, &chain, &addr(50), &add).is_none());
    chain.write(d.copy(), h(&tag(Label::WithdrawReduce), &addr(7)), num(3));
    chain.write(d.copy(), h(&tag(Label::Withdraw), &addr(7)), num(3));
    chain.write(d.copy(), h(&tag(Label::Withdraw), &addr(7)), num(0));
    assert!(exchange::withdraw_swap_auth(&chain, &d, &chain, &addr(7), &num(1)).is_some());
    let auth = DexCall::WithdrawSwapAuth { token: addr(7), nonce: num(1) };
    assert!(dex.execute(&chain, &d, &chain, &addr(110), &auth).is_none());
}

#[test]
fn minimum_liquidity_value() {
    assert_eq!(MINIMUM_LIQUIDITY, 1000);
}
