use dex::chain::{Chain, Outcome, SlotNode};
use dex::word::{hash_pair, Label, Word};
use dex::{dex as exchange, token};

fn addr(a: u64) -> Word {
    Word::felts(a, a + 1, a + 2, a + 3)
}

fn h(a: &Word, b: &Word) -> Word {
    hash_pair(a.copy(), b.copy())
}

fn num(n: u128) -> Word {
    Word::Num(n)
}

fn apply(chain: &mut Chain, this: &Word, r: Option<Outcome>) {
    let o = r.expect("the entry was refused");
    chain.apply(this, &o.diffs);
}

fn balance_key(owner: &Word) -> Word {
    h(&Word::Tag(Label::Balance), owner)
}

fn funded(token: &Word, owner: &Word, supply: u128) -> Chain {
    let mut chain = Chain::new();
    let r = token::init(&chain, token, owner, &num(supply), &num(0));
    apply(&mut chain, token, r);
    chain
}

#[test]
fn law_transfer_then_collect_moves_amount() {
    let t = addr(100);
    let (a, b) = (addr(1), addr(2));
    let mut chain = funded(&t, &a, 500);
    chain.write(t.copy(), balance_key(&b), num(5));
    let r = token::transfer(&chain, &t, &a, &b, &num(120), &num(3));
    apply(&mut chain, &t, r);
    assert_eq!(chain.read(&t, &balance_key(&a)), num(380));
    assert_eq!(chain.read(&t, &balance_key(&b)), num(5));
    let r = token::collect(&chain, &t, &a, &b, &num(4), &num(3));
    apply(&mut chain, &t, r);
    assert_eq!(chain.read(&t, &balance_key(&a)), num(380));
    assert_eq!(chain.read(&t, &balance_key(&b)), num(125));
}

#[test]
fn law_collect_pays_once() {
    let t = addr(100);
    let (a, b) = (addr(1), addr(2));
    let mut chain = funded(&t, &a, 500);
    let r = token::transfer(&chain, &t, &a, &b, &num(120), &num(3));
    apply(&mut chain, &t, r);
    let r = token::collect(&chain, &t, &a, &b, &num(4), &num(3));
    apply(&mut chain, &t, r);
    let r = token::collect(&chain, &t, &a, &b, &num(5), &num(3));
    assert!(r.is_some());
    apply(&mut chain, &t, r);
    assert_eq!(chain.read(&t, &balance_key(&b)), num(120));
}

#[test]
fn law_token_init_once() {
    let t = addr(100);
    let chain = funded(&t, &addr(1), 1);
    assert!(token::init(&chain, &t, &addr(2), &num(9), &num(1)).is_none());
}

#[test]
fn law_total_supply_kept() {
    let t = addr(100);
    let (a, b) = (addr(1), addr(2));
    let mut chain = funded(&t, &a, 77);
    let r = token::transfer(&chain, &t, &a, &b, &num(7), &num(3));
    apply(&mut chain, &t, r);
    let r = token::collect(&chain, &t, &a, &b, &num(4), &num(3));
    apply(&mut chain, &t, r);
    assert_eq!(chain.read(&t, &Word::Tag(Label::TotalSupply)), num(77));
}

#[test]
fn law_reading_changes_nothing() {
    let t = addr(100);
    let a = addr(1);
    let mut chain = funded(&t, &a, 77);
    let keys = vec![
        balance_key(&a),
        Word::Tag(Label::TotalSupply),
        Word::Tag(Label::Decimal),
        Word::Tag(Label::Name),
        Word::Digest(Box::new(Word::Tag(Label::Name))),
    ];
    let before: Vec<Word> = keys.iter().map(|k| chain.read(&t, k)).collect();
    let o = token::name(&chain, &t);
    chain.apply(&t, &o.diffs);
    let o = token::total_supply(&chain, &t);
    chain.apply(&t, &o.diffs);
    let o = token::decimal(&chain, &t);
    chain.apply(&t, &o.diffs);
    let o = token::balance_of(&chain, &t, &a);
    chain.apply(&t, &o.diffs);
    let after: Vec<Word> = keys.iter().map(|k| chain.read(&t, k)).collect();
    assert_eq!(before, after);
}

#[test]
fn law_dex_init_once() {
    let d = addr(300);
    let mut chain = Chain::new();
    let r = exchange::init(&chain, &d, &addr(100), &addr(200));
    apply(&mut chain, &d, r);
    assert!(exchange::init(&chain, &d, &addr(100), &addr(200)).is_none());
    assert!(exchange::init(&chain, &d, &addr(400), &addr(500)).is_none());
}

#[test]
fn law_deposit_after_transfer() {
    let (t0, t1, d, a) = (addr(100), addr(200), addr(300), addr(1));
    let mut chain = funded(&t0, &a, 50);
    let r = exchange::init(&chain, &d, &t0, &t1);
    apply(&mut chain, &d, r);
    let r = token::transfer(&chain, &t0, &a, &d, &num(20), &num(8));
    apply(&mut chain, &t0, r);
    assert!(exchange::deposit(&chain, &d, &a, &num(20), &num(1), &num(8), &num(0)).is_some());
}

#[test]
fn law_reduce_entries_refuse_immediate_replay() {
    let d = addr(300);
    let mut chain = Chain::new();
    let token_key = addr(7);
    let request = h(&h(&addr(1), &addr(2)), &num(3));
    chain.write(d.copy(), h(&Word::Tag(Label::Withdraw), &token_key), request.copy());
    let r = exchange::withdraw_reduce(&chain, &d, &chain, &token_key);
    apply(&mut chain, &d, r);
    assert!(exchange::withdraw_reduce(&chain, &d, &chain, &token_key).is_none());
    chain.write(d.copy(), Word::Tag(Label::LiquidityInbox), request.copy());
    let r = exchange::liquidity_reduce(&chain, &d, &chain);
    apply(&mut chain, &d, r);
    assert!(exchange::liquidity_reduce(&chain, &d, &chain).is_none());
    assert_eq!(chain.read(&d, &Word::Tag(Label::LiquidityReduce)), request);
}

#[test]
fn law_supply_conserved() {
    let t = addr(100);
    let (a, b, c) = (addr(1), addr(2), addr(3));
    let mut chain = funded(&t, &a, 100);
    let r = token::transfer(&chain, &t, &a, &b, &num(30), &num(1));
    apply(&mut chain, &t, r);
    let r = token::collect(&chain, &t, &a, &b, &num(2), &num(1));
    apply(&mut chain, &t, r);
    let r = token::transfer(&chain, &t, &b, &c, &num(10), &num(3));
    apply(&mut chain, &t, r);
    let r = token::transfer(&chain, &t, &a, &c, &num(5), &num(4));
    apply(&mut chain, &t, r);
    let r = token::collect(&chain, &t, &a, &c, &num(5), &num(4));
    apply(&mut chain, &t, r);
    let keys = vec![
        balance_key(&a),
        balance_key(&b),
        balance_key(&c),
        h(&h(&Word::Tag(Label::Inbox), &a), &h(&b, &num(1))),
        h(&h(&Word::Tag(Label::Inbox), &b), &h(&c, &num(3))),
        h(&h(&Word::Tag(Label::Inbox), &a), &h(&c, &num(4))),
    ];
    let mut sum: u128 = 0;
    for k in keys.iter() {
        match chain.read(&t, k) {
            Word::Num(v) => sum += v,
            other => panic!("not an amount: {:?}", other),
        }
    }
    assert_eq!(sum, 100);
    assert_eq!(chain.read(&t, &Word::Tag(Label::TotalSupply)), num(100));
    assert_eq!(chain.read(&t, &balance_key(&a)), num(65));
    assert_eq!(chain.read(&t, &balance_key(&c)), num(5));
}

#[test]
fn law_withdraw_debits_amount() {
    let (t0, d, a) = (addr(100), addr(300), addr(1));
    let pool = addr(9);
    let mut chain = Chain::new();
    chain.write(d.copy(), h(&pool, &num(0)), t0.copy());
    let key = h(&h(&Word::Tag(Label::Balance), &a), &t0);
    chain.write(d.copy(), key.copy(), num(60));
    let r = exchange::withdraw(&chain, &d, &a, &num(25), &num(2), &pool, &num(0));
    apply(&mut chain, &d, r);
    assert_eq!(chain.read(&d, &key), num(35));
}

#[test]
fn law_add_liquidity_debits_both() {
    let (t0, t1, d, a) = (addr(100), addr(200), addr(300), addr(1));
    let mut chain = Chain::new();
    let r = exchange::init(&chain, &d, &t0, &t1);
    apply(&mut chain, &d, r);
    let pool = h(&h(&Word::Tag(Label::Pool), &t0), &t1);
    let k0 = h(&h(&Word::Tag(Label::Balance), &a), &t0);
    let k1 = h(&h(&Word::Tag(Label::Balance), &a), &t1);
    chain.write(d.copy(), k0.copy(), num(10));
    chain.write(d.copy(), k1.copy(), num(10));
    let r = exchange::add_liquidity(&chain, &d, &a, &pool, &num(1), &num(4), &num(6));
    apply(&mut chain, &d, r);
    assert_eq!(chain.read(&d, &k0), num(6));
    assert_eq!(chain.read(&d, &k1), num(4));
}

#[test]
fn chain_read_after_write() {
    let mut chain = Chain::new();
    assert_eq!(chain.read(&addr(1), &num(5)), num(0));
    chain.write(addr(1), num(5), num(9));
    assert_eq!(chain.read(&addr(1), &num(5)), num(9));
    assert_eq!(chain.read(&addr(2), &num(5)), num(0));
    chain.write(addr(1), num(5), num(10));
    assert_eq!(chain.read(&addr(1), &num(5)), num(10));
    chain.apply(&addr(1), &vec![(num(5), num(11)), (num(5), num(12))]);
    assert_eq!(chain.read(&addr(1), &num(5)), num(12));
}

#[test]
fn law_deposit_is_credited() {
    let (t0, t1, d, a) = (addr(100), addr(200), addr(300), addr(1));
    let mut chain = funded(&t0, &a, 50);
    let r = exchange::init(&chain, &d, &t0, &t1);
    apply(&mut chain, &d, r);
    chain.write(d.copy(), h(&h(&Word::Tag(Label::Balance), &a), &t0), num(5));
    let r = token::transfer(&chain, &t0, &a, &d, &num(20), &num(8));
    apply(&mut chain, &t0, r);
    let r = exchange::deposit(&chain, &d, &a, &num(20), &num(1), &num(8), &num(0));
    apply(&mut chain, &d, r);
    let r = token::collect(&chain, &t0, &a, &d, &num(2), &num(8));
    apply(&mut chain, &t0, r);
    let inbox = h(&h(&Word::Tag(Label::Inbox), &a), &h(&d, &num(8)));
    let key_token = h(&h(&h(&Word::Tag(Label::Pool), &t0), &t1), &num(0));
    assert_eq!(
        chain.last_change(&d, &h(&Word::Tag(Label::Inbox), &key_token)),
        Some(SlotNode { prev: num(0), item: inbox.copy() })
    );
    let r = exchange::deposit_reduce(&chain, &d, &chain, &key_token);
    apply(&mut chain, &d, r);
    assert_eq!(chain.read(&d, &h(&h(&Word::Tag(Label::Balance), &a), &t0)), num(25));
    assert_eq!(chain.read(&d, &h(&Word::Tag(Label::Deposit), &t0)), inbox);
}

#[test]
fn law_deposit_reduce_applies_next() {
    let (t0, t1, d, a) = (addr(100), addr(200), addr(300), addr(1));
    let key_token = h(&h(&h(&Word::Tag(Label::Pool), &t0), &t1), &num(0));
    // the chain of two deposits from one sender under two inbox nonces;
    // `upto` stops after the first deposit when it is 1
    let build = |upto: usize| -> Chain {
        let mut chain = funded(&t0, &a, 50);
        let r = exchange::init(&chain, &d, &t0, &t1);
        apply(&mut chain, &d, r);
        for n in 1..=upto {
            let r = token::transfer(&chain, &t0, &a, &d, &num(10 * n as u128), &num(n as u128));
            apply(&mut chain, &t0, r);
            let r = exchange::deposit(&chain, &d, &a, &num(10 * n as u128), &num(9), &num(n as u128), &num(0));
            apply(&mut chain, &d, r);
            let r = token::collect(&chain, &t0, &a, &d, &num(7), &num(n as u128));
            apply(&mut chain, &t0, r);
        }
        chain
    };
    let first = build(1);
    let mut chain = build(2);
    let balance = h(&h(&Word::Tag(Label::Balance), &a), &t0);
    // the latest snapshot's change starts from the first deposit, where the
    // pointer does not stand yet
    assert!(exchange::deposit_reduce(&chain, &d, &chain, &key_token).is_none());
    let r = exchange::deposit_reduce(&chain, &d, &first, &key_token);
    apply(&mut chain, &d, r);
    assert_eq!(chain.read(&d, &balance), num(10));
    assert!(exchange::deposit_reduce(&chain, &d, &first, &key_token).is_none());
    let r = exchange::deposit_reduce(&chain, &d, &chain, &key_token);
    apply(&mut chain, &d, r);
    assert_eq!(chain.read(&d, &balance), num(30));
    assert!(exchange::deposit_reduce(&chain, &d, &chain, &key_token).is_none());
    assert!(exchange::deposit_reduce(&chain, &d, &first, &key_token).is_none());
}

#[test]
fn law_balances_move_only_by_deposit_withdraw_add() {
    let (t0, t1, d, a) = (addr(100), addr(200), addr(300), addr(1));
    let mut chain = Chain::new();
    let r = exchange::init(&chain, &d, &t0, &t1);
    apply(&mut chain, &d, r);
    let balance = h(&h(&Word::Tag(Label::Balance), &a), &t0);
    chain.write(d.copy(), balance.copy(), num(40));
    chain.write(d.copy(), h(&Word::Tag(Label::Pool), &num(0)), t0.copy());
    chain.write(d.copy(), h(&Word::Tag(Label::Reserve), &t0), num(40));
    let r = exchange::swap(&chain, &d, &a, &num(1), &num(0), &num(0), &num(30), &num(30));
    assert!(r.is_some());
    let r = exchange::swap(&chain, &d, &a, &num(1), &num(0), &num(0), &num(0), &num(0));
    apply(&mut chain, &d, r);
    assert_eq!(chain.read(&d, &balance), num(40));
    let r = exchange::liquidity_reduce(&chain, &d, &chain);
    apply(&mut chain, &d, r);
    assert_eq!(chain.read(&d, &balance), num(40));
    let r = exchange::remove_liquidity(&chain, &d, &a, &num(2), &num(0), &num(0));
    apply(&mut chain, &d, r);
    assert_eq!(chain.read(&d, &balance), num(40));
    let pool = h(&h(&Word::Tag(Label::Pool), &t0), &t1);
    chain.write(d.copy(), h(&h(&Word::Tag(Label::Balance), &a), &t1), num(5));
    let r = exchange::add_liquidity(&chain, &d, &a, &pool, &num(3), &num(15), &num(5));
    apply(&mut chain, &d, r);
    assert_eq!(chain.read(&d, &balance), num(25));
}

#[test]
fn law_withdraw_undoes_credit() {
    let (t0, d, a) = (addr(100), addr(300), addr(1));
    let pool = addr(9);
    let mut chain = Chain::new();
    chain.write(d.copy(), h(&pool, &num(0)), t0.copy());
    let key = h(&h(&Word::Tag(Label::Balance), &a), &t0);
    chain.write(d.copy(), key.copy(), num(12 + 30));
    let r = exchange::withdraw(&chain, &d, &a, &num(30), &num(2), &pool, &num(0));
    apply(&mut chain, &d, r);
    assert_eq!(chain.read(&d, &key), num(12));
}

#[test]
fn chain_last_change() {
    let mut chain = Chain::new();
    let (c, k) = (addr(1), num(5));
    assert_eq!(chain.last_change(&c, &k), None);
    chain.write(c.copy(), k.copy(), num(7));
    chain.write(c.copy(), num(6), num(8));
    assert_eq!(chain.last_change(&c, &k), Some(SlotNode { prev: num(0), item: num(7) }));
    chain.write(c.copy(), k.copy(), num(9));
    assert_eq!(chain.last_change(&c, &k), Some(SlotNode { prev: num(7), item: num(9) }));
    assert_eq!(chain.last_change(&addr(2), &k), None);
}
