//! Properties that hold across calls: what a sequence of entries does to the
//! storage.
use vstd::prelude::*;
use crate::word::{Word, Label, zero, hashed, word_sum, word_difference};
use crate::chain::{slot, apply_diffs, latest, last_change, SlotNode};
use crate::token;
use crate::token::{balance_key, inbox_key, TokenCall};
use crate::dex;

verus! {

/// The value last written to key `k` in `diffs`, if any.
pub open spec fn written(diffs: Seq<(Word, Word)>, k: Word) -> Option<Word>
    decreases diffs.len(),
{
    if diffs.len() == 0 {
        None
    } else if diffs.last().0 == k {
        Some(diffs.last().1)
    } else {
        written(diffs.drop_last(), k)
    }
}

/// After contract `c` writes `diffs`, a key it wrote holds the last value
/// written to it; every other slot is as it was.
pub proof fn lemma_slot_after(
    m: Map<(Word, Word), Word>,
    c: Word,
    diffs: Seq<(Word, Word)>,
    c2: Word,
    k: Word,
)
    ensures
        slot(apply_diffs(m, c, diffs), c2, k) == (if c2 == c && written(diffs, k) is Some {
            written(diffs, k).unwrap()
        } else {
            slot(m, c2, k)
        }),
    decreases diffs.len(),
{
    if diffs.len() > 0 {
        lemma_slot_after(m, c, diffs.drop_last(), c2, k);
    }
}

/// A transfer followed by the receiver's collect of that inbox moves exactly
/// the amount from the sender's balance to the receiver's: the transfer
/// debits the sender by `amount` and fills the inbox with it; the collect is
/// accepted exactly when the receiver's balance plus `amount` fits, credits
/// that sum and empties the inbox, leaving the sender's balance alone.
pub proof fn transfer_then_collect(
    m: Map<(Word, Word), Word>,
    this: Word,
    sender: Word,
    receiver: Word,
    amount: u128,
    nonce: Word,
    collect_nonce: Word,
)
    requires
        sender != receiver,
        token::transfer_effect(m, this, sender, receiver, Word::Num(amount), nonce) is Some,
    ensures
        ({
            let t = token::transfer_effect(m, this, sender, receiver, Word::Num(amount), nonce).unwrap();
            let m1 = apply_diffs(m, this, t.diffs);
            let c = token::collect_effect(m1, this, sender, receiver, collect_nonce, nonce);
            &&& Some(slot(m1, this, balance_key(sender))) == word_difference(
                slot(m, this, balance_key(sender)),
                Word::Num(amount),
            )
            &&& slot(m1, this, inbox_key(sender, receiver, nonce)) == Word::Num(amount)
            &&& slot(m1, this, balance_key(receiver)) == slot(m, this, balance_key(receiver))
            &&& (c is Some <==> word_sum(slot(m, this, balance_key(receiver)), Word::Num(amount)) is Some)
            &&& (c is Some ==> {
                let m2 = apply_diffs(m1, this, c.unwrap().diffs);
                &&& Some(slot(m2, this, balance_key(receiver))) == word_sum(
                    slot(m, this, balance_key(receiver)),
                    Word::Num(amount),
                )
                &&& slot(m2, this, balance_key(sender)) == slot(m1, this, balance_key(sender))
                &&& slot(m2, this, inbox_key(sender, receiver, nonce)) == zero()
            })
        }),
{
    let t = token::transfer_effect(m, this, sender, receiver, Word::Num(amount), nonce).unwrap();
    let m1 = apply_diffs(m, this, t.diffs);
    reveal_with_fuel(written, 3);
    lemma_slot_after(m, this, t.diffs, this, balance_key(sender));
    lemma_slot_after(m, this, t.diffs, this, inbox_key(sender, receiver, nonce));
    lemma_slot_after(m, this, t.diffs, this, balance_key(receiver));
    let c = token::collect_effect(m1, this, sender, receiver, collect_nonce, nonce);
    if c is Some {
        let d = c.unwrap().diffs;
        lemma_slot_after(m1, this, d, this, balance_key(receiver));
        lemma_slot_after(m1, this, d, this, balance_key(sender));
        lemma_slot_after(m1, this, d, this, inbox_key(sender, receiver, nonce));
    }
}

/// Once the inbox has been collected, collecting it again is accepted and
/// leaves the receiver's balance as it is: an inbox pays out once.
pub proof fn collect_pays_once(
    m: Map<(Word, Word), Word>,
    this: Word,
    sender: Word,
    receiver: Word,
    nonce: Word,
    again_nonce: Word,
    inbox_nonce: Word,
)
    requires
        token::collect_effect(m, this, sender, receiver, nonce, inbox_nonce) is Some,
    ensures
        ({
            let m1 = apply_diffs(
                m,
                this,
                token::collect_effect(m, this, sender, receiver, nonce, inbox_nonce).unwrap().diffs,
            );
            let again = token::collect_effect(m1, this, sender, receiver, again_nonce, inbox_nonce);
            &&& again is Some
            &&& slot(apply_diffs(m1, this, again.unwrap().diffs), this, balance_key(receiver))
                == slot(m1, this, balance_key(receiver))
        }),
{
    let d = token::collect_effect(m, this, sender, receiver, nonce, inbox_nonce).unwrap().diffs;
    let m1 = apply_diffs(m, this, d);
    let ik = inbox_key(sender, receiver, inbox_nonce);
    reveal_with_fuel(written, 3);
    lemma_slot_after(m, this, d, this, balance_key(receiver));
    lemma_slot_after(m, this, d, this, ik);
    let again = token::collect_effect(m1, this, sender, receiver, again_nonce, inbox_nonce);
    let d2 = again.unwrap().diffs;
    lemma_slot_after(m1, this, d2, this, balance_key(receiver));
}

/// The token can be initialised once: after an `init` with a non-zero
/// amount, every further `init` is refused.
pub proof fn token_init_once(
    m: Map<(Word, Word), Word>,
    this: Word,
    sender: Word,
    amount: Word,
    nonce: Word,
    sender_2: Word,
    amount_2: Word,
    nonce_2: Word,
)
    requires
        token::init_effect(m, this, sender, amount, nonce) is Some,
        amount != zero(),
    ensures
        token::init_effect(
            apply_diffs(m, this, token::init_effect(m, this, sender, amount, nonce).unwrap().diffs),
            this,
            sender_2,
            amount_2,
            nonce_2,
        ) is None,
{
    let d = token::init_effect(m, this, sender, amount, nonce).unwrap().diffs;
    reveal_with_fuel(written, 5);
    lemma_slot_after(m, this, d, this, Word::Tag(Label::TotalSupply));
}

/// Only `init` sets the total supply: transfers and collects leave it as it
/// is.
pub proof fn total_supply_kept(
    m: Map<(Word, Word), Word>,
    this: Word,
    sender: Word,
    receiver: Word,
    amount: Word,
    nonce: Word,
    inbox_nonce: Word,
)
    ensures
        token::transfer_effect(m, this, sender, receiver, amount, nonce) matches Some(e) ==> slot(
            apply_diffs(m, this, e.diffs),
            this,
            Word::Tag(Label::TotalSupply),
        ) == slot(m, this, Word::Tag(Label::TotalSupply)),
        token::collect_effect(m, this, sender, receiver, nonce, inbox_nonce) matches Some(e)
            ==> slot(apply_diffs(m, this, e.diffs), this, Word::Tag(Label::TotalSupply)) == slot(
            m,
            this,
            Word::Tag(Label::TotalSupply),
        ),
{
    reveal_with_fuel(written, 3);
    if let Some(e) = token::transfer_effect(m, this, sender, receiver, amount, nonce) {
        lemma_slot_after(m, this, e.diffs, this, Word::Tag(Label::TotalSupply));
    }
    if let Some(e) = token::collect_effect(m, this, sender, receiver, nonce, inbox_nonce) {
        lemma_slot_after(m, this, e.diffs, this, Word::Tag(Label::TotalSupply));
    }
}

/// The reading entries (`name`, `total_supply`, `decimal`, `balance_of`)
/// change no slot of any contract.
pub proof fn reading_changes_nothing(m: Map<(Word, Word), Word>, this: Word, key: Word, c: Word, k: Word)
    ensures
        slot(apply_diffs(m, this, token::read_back_effect(m, this, key).diffs), c, k) == slot(m, c, k),
{
    reveal_with_fuel(written, 2);
    lemma_slot_after(m, this, token::read_back_effect(m, this, key).diffs, c, k);
}

/// The exchange can be initialised once: after an `init`, every further
/// `init` is refused.
pub proof fn dex_init_once(m: Map<(Word, Word), Word>, this: Word, token_0: Word, token_1: Word, other_0: Word, other_1: Word)
    requires
        dex::init_effect(m, this, token_0, token_1) is Some,
    ensures
        dex::init_effect(
            apply_diffs(m, this, dex::init_effect(m, this, token_0, token_1).unwrap().diffs),
            this,
            other_0,
            other_1,
        ) is None,
{
    let d = dex::init_effect(m, this, token_0, token_1).unwrap().diffs;
    reveal_with_fuel(written, 4);
    lemma_slot_after(m, this, d, this, dex::pool_slot());
}

/// A deposit is accepted once its funds are in the token's inbox: after
/// `sender` transfers a non-zero `amount` of the token that the exchange's
/// pool lists under `flag` to the exchange under `inbox_nonce`, a deposit of
/// `amount` citing that inbox is accepted.
pub proof fn deposit_after_transfer(
    m: Map<(Word, Word), Word>,
    dex_address: Word,
    sender: Word,
    amount: u128,
    transfer_nonce: Word,
    deposit_nonce: Word,
    inbox_nonce: Word,
    flag: Word,
)
    requires
        amount > 0,
        slot(m, dex_address, hashed(slot(m, dex_address, dex::pool_slot()), flag)) != dex_address,
        token::transfer_effect(
            m,
            slot(m, dex_address, hashed(slot(m, dex_address, dex::pool_slot()), flag)),
            sender,
            dex_address,
            Word::Num(amount),
            inbox_nonce,
        ) is Some,
    ensures
        ({
            let token = slot(m, dex_address, hashed(slot(m, dex_address, dex::pool_slot()), flag));
            let t = token::transfer_effect(m, token, sender, dex_address, Word::Num(amount), inbox_nonce).unwrap();
            dex::deposit_effect(
                apply_diffs(m, token, t.diffs),
                dex_address,
                sender,
                Word::Num(amount),
                deposit_nonce,
                inbox_nonce,
                flag,
            ) is Some
        }),
{
    let pool = slot(m, dex_address, dex::pool_slot());
    let key_token = hashed(pool, flag);
    let token = slot(m, dex_address, key_token);
    let t = token::transfer_effect(m, token, sender, dex_address, Word::Num(amount), inbox_nonce).unwrap();
    reveal_with_fuel(written, 3);
    lemma_slot_after(m, token, t.diffs, dex_address, dex::pool_slot());
    lemma_slot_after(m, token, t.diffs, dex_address, key_token);
    lemma_slot_after(m, token, t.diffs, token, inbox_key(sender, dex_address, inbox_nonce));
}

/// Whether `w` is built as `hash2to1(hash2to1(..), ..)`, as the key of every
/// request that the exchange queues is.
pub open spec fn is_nested_hash(w: Word) -> bool {
    match w {
        Word::Hash(a, _) => match *a {
            Word::Hash(_, _) => true,
            _ => false,
        },
        _ => false,
    }
}

/// Applying a queued deposit moves the deposit pointer of its token to the
/// deposit's key: after `deposit_reduce` applies the change `node`, the
/// pointer stands at `node.item`, so the same change is refused when it is
/// offered again right away, unless `node.prev == node.item`: a change
/// that leaves the queue where it was (the same key written twice in a row)
/// credits that deposit again. See `deposit_reduce_applies_next` for the
/// order in which a queue is walked through snapshots.
pub proof fn deposit_reduce_no_immediate_replay(m: Map<(Word, Word), Word>, this: Word, node: crate::chain::SlotNode)
    requires
        dex::deposit_reduce_effect(m, this, node) is Some,
        is_nested_hash(node.item),
    ensures
        ({
            let m1 = apply_diffs(m, this, dex::deposit_reduce_effect(m, this, node).unwrap().diffs);
            let token = slot(m, this, dex::field(node.item, 2));
            &&& slot(m1, this, hashed(Word::Tag(Label::Deposit), token)) == node.item
            &&& node.prev != node.item ==> dex::deposit_reduce_effect(m1, this, node) is None
        }),
{
    let d = dex::deposit_reduce_effect(m, this, node).unwrap().diffs;
    let item = node.item;
    let token = slot(m, this, dex::field(item, 2));
    let owner = slot(m, this, dex::field_ones(item));
    reveal_with_fuel(written, 3);
    lemma_slot_after(m, this, d, this, hashed(Word::Tag(Label::Deposit), token));
    lemma_slot_after(m, this, d, this, dex::field(item, 2));
    assert(dex::field(item, 2) != dex::dex_balance_key(owner, token));
}

/// Applying a queued withdrawal moves the queue's pointer to it: after
/// `withdraw_reduce` applies the change `node` of the withdrawal queue of
/// `token`, the pointer stands at `node.item` (where that item is not the
/// pointer's own key) and the item is marked, so the same change is refused
/// when it is offered again right away, unless `node.prev == node.item`.
pub proof fn withdraw_reduce_no_immediate_replay(m: Map<(Word, Word), Word>, this: Word, token: Word, node: crate::chain::SlotNode)
    requires
        dex::withdraw_reduce_effect(m, this, token, node) is Some,
        node.item != dex::withdraw_pointer_key(token),
    ensures
        ({
            let m1 = apply_diffs(m, this, dex::withdraw_reduce_effect(m, this, token, node).unwrap().diffs);
            &&& slot(m1, this, dex::withdraw_pointer_key(token)) == node.item
            &&& slot(m1, this, node.item) == Word::Ones
            &&& node.prev != node.item ==> dex::withdraw_reduce_effect(m1, this, token, node) is None
        }),
{
    let d = dex::withdraw_reduce_effect(m, this, token, node).unwrap().diffs;
    reveal_with_fuel(written, 3);
    lemma_slot_after(m, this, d, this, dex::withdraw_pointer_key(token));
    lemma_slot_after(m, this, d, this, node.item);
}

/// Applying a queued liquidity request moves the queue's pointer to it:
/// after `liquidity_reduce` applies the change `node`, the pointer stands at
/// `node.item`, so the same change is refused when it is offered again right
/// away, unless `node.prev == node.item`.
pub proof fn liquidity_reduce_no_immediate_replay(m: Map<(Word, Word), Word>, this: Word, node: crate::chain::SlotNode)
    requires
        dex::liquidity_reduce_effect(m, this, node) is Some,
    ensures
        ({
            let m1 = apply_diffs(m, this, dex::liquidity_reduce_effect(m, this, node).unwrap().diffs);
            &&& slot(m1, this, Word::Tag(Label::LiquidityReduce)) == node.item
            &&& node.prev != node.item ==> dex::liquidity_reduce_effect(m1, this, node) is None
        }),
{
    let d = dex::liquidity_reduce_effect(m, this, node).unwrap().diffs;
    reveal_with_fuel(written, 2);
    lemma_slot_after(m, this, d, this, Word::Tag(Label::LiquidityReduce));
}

/// A withdrawal debits exactly its amount from the sender's balance of the
/// token and records the request's sender, token, amount and nonce.
pub proof fn withdraw_debits(
    m: Map<(Word, Word), Word>,
    this: Word,
    sender: Word,
    amount: Word,
    nonce: Word,
    pool: Word,
    flag: Word,
)
    requires
        dex::withdraw_effect(m, this, sender, amount, nonce, pool, flag) is Some,
    ensures
        ({
            let token = slot(m, this, hashed(pool, flag));
            let request = dex::withdrawal_key(sender, token, amount, nonce);
            let m1 = apply_diffs(m, this, dex::withdraw_effect(m, this, sender, amount, nonce, pool, flag).unwrap().diffs);
            &&& Some(slot(m1, this, dex::dex_balance_key(sender, token))) == word_difference(
                slot(m, this, dex::dex_balance_key(sender, token)),
                amount,
            )
            &&& slot(m1, this, dex::field(request, 0)) == sender
            &&& slot(m1, this, dex::field_ones(request)) == token
            &&& slot(m1, this, dex::field(request, 2)) == amount
            &&& slot(m1, this, dex::field(request, 3)) == nonce
        }),
{
    let token = slot(m, this, hashed(pool, flag));
    let request = dex::withdrawal_key(sender, token, amount, nonce);
    let d = dex::withdraw_effect(m, this, sender, amount, nonce, pool, flag).unwrap().diffs;
    reveal_with_fuel(written, 7);
    lemma_slot_after(m, this, d, this, dex::dex_balance_key(sender, token));
    lemma_slot_after(m, this, d, this, dex::field(request, 0));
    lemma_slot_after(m, this, d, this, dex::field_ones(request));
    lemma_slot_after(m, this, d, this, dex::field(request, 2));
    lemma_slot_after(m, this, d, this, dex::field(request, 3));
}

/// Adding liquidity to a pool of two distinct tokens debits each of the
/// sender's two balances by its amount.
pub proof fn add_liquidity_debits(
    m: Map<(Word, Word), Word>,
    this: Word,
    sender: Word,
    pool: Word,
    nonce: Word,
    amount_0: Word,
    amount_1: Word,
)
    requires
        dex::add_liquidity_effect(m, this, sender, pool, nonce, amount_0, amount_1) is Some,
        slot(m, this, dex::field(pool, 0)) != slot(m, this, dex::field_ones(pool)),
    ensures
        ({
            let key_0 = dex::dex_balance_key(sender, slot(m, this, dex::field(pool, 0)));
            let key_1 = dex::dex_balance_key(sender, slot(m, this, dex::field_ones(pool)));
            let m1 = apply_diffs(m, this, dex::add_liquidity_effect(m, this, sender, pool, nonce, amount_0, amount_1).unwrap().diffs);
            &&& Some(slot(m1, this, key_0)) == word_difference(slot(m, this, key_0), amount_0)
            &&& Some(slot(m1, this, key_1)) == word_difference(slot(m, this, key_1), amount_1)
        }),
{
    let key_0 = dex::dex_balance_key(sender, slot(m, this, dex::field(pool, 0)));
    let key_1 = dex::dex_balance_key(sender, slot(m, this, dex::field_ones(pool)));
    let d = dex::add_liquidity_effect(m, this, sender, pool, nonce, amount_0, amount_1).unwrap().diffs;
    reveal_with_fuel(written, 8);
    lemma_slot_after(m, this, d, this, key_0);
    lemma_slot_after(m, this, d, this, key_1);
}

/// A deposit is credited once the exchange has collected its inbox: after a
/// `deposit` of `amount` and the exchange's `collect` of that inbox at the
/// token, reducing the deposit (the queue's change from the token's current
/// deposit pointer to the deposit's inbox key) is accepted exactly when the
/// depositor's balance plus `amount` fits, and then credits `amount` to the
/// depositor's balance of the token and moves the pointer to the deposit.
pub proof fn deposit_is_credited(
    m: Map<(Word, Word), Word>,
    dex_address: Word,
    sender: Word,
    amount: u128,
    nonce: Word,
    inbox_nonce: Word,
    flag: Word,
    collect_nonce: Word,
)
    requires
        dex::deposit_effect(m, dex_address, sender, Word::Num(amount), nonce, inbox_nonce, flag) is Some,
        slot(m, dex_address, hashed(slot(m, dex_address, dex::pool_slot()), flag)) != dex_address,
        token::collect_effect(
            apply_diffs(
                m,
                dex_address,
                dex::deposit_effect(m, dex_address, sender, Word::Num(amount), nonce, inbox_nonce, flag).unwrap().diffs,
            ),
            slot(m, dex_address, hashed(slot(m, dex_address, dex::pool_slot()), flag)),
            sender,
            dex_address,
            collect_nonce,
            inbox_nonce,
        ) is Some,
    ensures
        ({
            let token = slot(m, dex_address, hashed(slot(m, dex_address, dex::pool_slot()), flag));
            let inbox = inbox_key(sender, dex_address, inbox_nonce);
            let m1 = apply_diffs(
                m,
                dex_address,
                dex::deposit_effect(m, dex_address, sender, Word::Num(amount), nonce, inbox_nonce, flag).unwrap().diffs,
            );
            let m2 = apply_diffs(
                m1,
                token,
                token::collect_effect(m1, token, sender, dex_address, collect_nonce, inbox_nonce).unwrap().diffs,
            );
            let node = crate::chain::SlotNode {
                prev: slot(m, dex_address, hashed(Word::Tag(Label::Deposit), token)),
                item: inbox,
            };
            let key = dex::dex_balance_key(sender, token);
            let reduced = dex::deposit_reduce_effect(m2, dex_address, node);
            &&& (reduced is Some <==> word_sum(slot(m, dex_address, key), Word::Num(amount)) is Some)
            &&& (reduced is Some ==> {
                let m3 = apply_diffs(m2, dex_address, reduced.unwrap().diffs);
                &&& Some(slot(m3, dex_address, key)) == word_sum(slot(m, dex_address, key), Word::Num(amount))
                &&& slot(m3, dex_address, hashed(Word::Tag(Label::Deposit), token)) == inbox
            })
        }),
{
    let pool = slot(m, dex_address, dex::pool_slot());
    let key_token = hashed(pool, flag);
    let token = slot(m, dex_address, key_token);
    let inbox = inbox_key(sender, dex_address, inbox_nonce);
    let d1 = dex::deposit_effect(m, dex_address, sender, Word::Num(amount), nonce, inbox_nonce, flag).unwrap().diffs;
    let m1 = apply_diffs(m, dex_address, d1);
    let d2 = token::collect_effect(m1, token, sender, dex_address, collect_nonce, inbox_nonce).unwrap().diffs;
    let m2 = apply_diffs(m1, token, d2);
    let pointer_key = hashed(Word::Tag(Label::Deposit), token);
    let key = dex::dex_balance_key(sender, token);
    reveal_with_fuel(written, 6);
    // what the deposit recorded
    lemma_slot_after(m, dex_address, d1, dex_address, dex::field(inbox, 0));
    lemma_slot_after(m, dex_address, d1, dex_address, dex::field_ones(inbox));
    lemma_slot_after(m, dex_address, d1, dex_address, dex::field(inbox, 2));
    lemma_slot_after(m, dex_address, d1, dex_address, dex::field(inbox, 3));
    lemma_slot_after(m, dex_address, d1, dex_address, pointer_key);
    lemma_slot_after(m, dex_address, d1, dex_address, key);
    lemma_slot_after(m1, token, d2, dex_address, dex::field(inbox, 0));
    lemma_slot_after(m1, token, d2, dex_address, dex::field_ones(inbox));
    lemma_slot_after(m1, token, d2, dex_address, dex::field(inbox, 2));
    lemma_slot_after(m1, token, d2, dex_address, dex::field(inbox, 3));
    lemma_slot_after(m1, token, d2, dex_address, pointer_key);
    lemma_slot_after(m1, token, d2, dex_address, key);
    // the collect emptied the token's inbox
    lemma_slot_after(m1, token, d2, token, inbox);
    let node = crate::chain::SlotNode { prev: slot(m, dex_address, pointer_key), item: inbox };
    let reduced = dex::deposit_reduce_effect(m2, dex_address, node);
    if reduced is Some {
        let d3 = reduced.unwrap().diffs;
        lemma_slot_after(m2, dex_address, d3, dex_address, key);
        lemma_slot_after(m2, dex_address, d3, dex_address, pointer_key);
    }
}

/// The number a word holds as an amount: its value where it is a number, and
/// nothing otherwise.
pub open spec fn amount_of(w: Word) -> int {
    match w {
        Word::Num(n) => n as int,
        _ => 0,
    }
}

/// The sum of the amounts that contract `this` holds under the keys `ks`,
/// each key counted once.
pub open spec fn holdings(m: Map<(Word, Word), Word>, this: Word, ks: Seq<Word>) -> int
    decreases ks.len(),
{
    if ks.len() == 0 {
        0
    } else {
        holdings(m, this, ks.drop_last()) + if ks.drop_last().contains(ks.last()) {
            0
        } else {
            amount_of(slot(m, this, ks.last()))
        }
    }
}

/// Whether `k` is the key of a balance or of an inbox of the token.
pub open spec fn is_account_key(k: Word) -> bool {
    match k {
        Word::Hash(a, b) => *a == Word::Tag(Label::Balance) || (match *a {
            Word::Hash(x, _) => *x == Word::Tag(Label::Inbox),
            _ => false,
        } && match *b {
            Word::Hash(_, _) => true,
            _ => false,
        }),
        _ => false,
    }
}

/// The balance and inbox keys that a call of the token writes.
pub open spec fn call_accounts(call: TokenCall) -> Seq<Word> {
    match call {
        TokenCall::Init { sender, .. } => seq![balance_key(sender)],
        TokenCall::Transfer { sender, receiver, nonce, .. } => seq![
            balance_key(sender),
            inbox_key(sender, receiver, nonce),
        ],
        TokenCall::Collect { sender, receiver, inbox_nonce, .. } => seq![
            balance_key(receiver),
            inbox_key(sender, receiver, inbox_nonce),
        ],
        _ => seq![],
    }
}

/// The balance and inbox keys that a sequence of calls writes.
pub open spec fn accounts(calls: Seq<TokenCall>) -> Seq<Word>
    decreases calls.len(),
{
    if calls.len() == 0 {
        seq![]
    } else {
        accounts(calls.drop_last()) + call_accounts(calls.last())
    }
}

/// The storage after the token at `this` runs `calls` in order from `m`, or
/// `None` where one of them is refused.
pub open spec fn run_calls(m: Map<(Word, Word), Word>, this: Word, calls: Seq<TokenCall>) -> Option<
    Map<(Word, Word), Word>,
>
    decreases calls.len(),
{
    if calls.len() == 0 {
        Some(m)
    } else {
        match run_calls(m, this, calls.drop_last()) {
            Some(m1) => match token::call_effect(m1, this, calls.last()) {
                Some(e) => Some(apply_diffs(m1, this, e.diffs)),
                None => None,
            },
            None => None,
        }
    }
}

/// The sender, receiver and nonce of a transfer.
pub open spec fn transfer_triple(call: TokenCall) -> Option<(Word, Word, Word)> {
    match call {
        TokenCall::Transfer { sender, receiver, nonce, .. } => Some((sender, receiver, nonce)),
        _ => None,
    }
}

/// Whether no two transfers among `calls` share sender, receiver and nonce.
pub open spec fn transfers_distinct(calls: Seq<TokenCall>) -> bool {
    forall|i: int, j: int|
        0 <= i < j < calls.len() && (#[trigger] transfer_triple(calls[i])) is Some
            ==> transfer_triple(calls[i]) != #[trigger] transfer_triple(calls[j])
}

/// Whether some call among `calls` is a transfer by `s` to `r` under `n`.
pub open spec fn transferred(calls: Seq<TokenCall>, s: Word, r: Word, n: Word) -> bool {
    exists|i: int| 0 <= i < calls.len() && #[trigger] transfer_triple(calls[i]) == Some((s, r, n))
}

/// Whether contract `this` holds nothing under any key.
pub open spec fn fresh(m: Map<(Word, Word), Word>, this: Word) -> bool {
    forall|k: Word| #[trigger] slot(m, this, k) == zero()
}

/// What holds of the token's storage after a run of calls from a fresh state.
pub open spec fn supply_invariant(m: Map<(Word, Word), Word>, this: Word, calls: Seq<TokenCall>) -> bool {
    let ks = accounts(calls);
    &&& holdings(m, this, ks) == amount_of(slot(m, this, Word::Tag(Label::TotalSupply)))
    &&& forall|k: Word| is_account_key(k) && !ks.contains(k) ==> #[trigger] slot(m, this, k) == zero()
    &&& forall|s: Word, r: Word, n: Word|
        !transferred(calls, s, r, n) ==> #[trigger] slot(m, this, inbox_key(s, r, n)) == zero()
    &&& forall|i: int| 0 <= i < ks.len() ==> is_account_key(#[trigger] ks[i])
}

/// Writing `v` under `k` changes the holdings by the change of amount at `k`,
/// where `k` is among the keys.
pub proof fn lemma_holdings_insert(m: Map<(Word, Word), Word>, this: Word, ks: Seq<Word>, k: Word, v: Word)
    ensures
        holdings(m.insert((this, k), v), this, ks) == holdings(m, this, ks) + if ks.contains(k) {
            amount_of(v) - amount_of(slot(m, this, k))
        } else {
            0
        },
    decreases ks.len(),
{
    if ks.len() > 0 {
        let init = ks.drop_last();
        lemma_holdings_insert(m, this, init, k, v);
        assert(ks =~= init.push(ks.last()));
        assert(ks.contains(k) <==> (init.contains(k) || ks.last() == k)) by {
            if ks.contains(k) {
                let i = choose|i: int| 0 <= i < ks.len() && ks[i] == k;
                if i < ks.len() - 1 {
                    assert(init[i] == k);
                }
            }
            if init.contains(k) {
                let i = choose|i: int| 0 <= i < init.len() && init[i] == k;
                assert(ks[i] == k);
            }
            if ks.last() == k {
                assert(ks[ks.len() - 1] == k);
            }
        }
    }
}

/// Adding a key adds its amount, unless it is already among the keys.
pub proof fn lemma_holdings_push(m: Map<(Word, Word), Word>, this: Word, ks: Seq<Word>, k: Word)
    ensures
        holdings(m, this, ks.push(k)) == holdings(m, this, ks) + if ks.contains(k) {
            0
        } else {
            amount_of(slot(m, this, k))
        },
{
    assert(ks.push(k).drop_last() =~= ks);
}

/// Holdings are never negative, and bound the amount under each of their keys.
pub proof fn lemma_holdings_bound(m: Map<(Word, Word), Word>, this: Word, ks: Seq<Word>, k: Word)
    ensures
        holdings(m, this, ks) >= 0,
        ks.contains(k) ==> amount_of(slot(m, this, k)) <= holdings(m, this, ks),
    decreases ks.len(),
{
    if ks.len() > 0 {
        let init = ks.drop_last();
        lemma_holdings_bound(m, this, init, k);
        lemma_holdings_bound(m, this, init, ks.last());
        if ks.contains(k) {
            let i = choose|i: int| 0 <= i < ks.len() && ks[i] == k;
            if i < ks.len() - 1 {
                assert(init[i] == k);
            }
        }
    }
}

/// A key among `a` is among `a + b`.
pub proof fn lemma_contains_concat(a: Seq<Word>, b: Seq<Word>, k: Word)
    ensures
        a.contains(k) ==> (a + b).contains(k),
{
    if a.contains(k) {
        let i = choose|i: int| 0 <= i < a.len() && a[i] == k;
        assert((a + b)[i] == k);
    }
}

/// Writing one more diff is one more insert.
pub proof fn lemma_apply_push(m: Map<(Word, Word), Word>, c: Word, d: Seq<(Word, Word)>, x: (Word, Word))
    ensures
        apply_diffs(m, c, d.push(x)) == apply_diffs(m, c, d).insert((c, x.0), x.1),
{
    assert(d.push(x).drop_last() =~= d);
}

/// The accounts of a run extended by one call.
pub proof fn lemma_accounts_push(calls: Seq<TokenCall>, call: TokenCall)
    ensures
        accounts(calls.push(call)) == accounts(calls) + call_accounts(call),
        forall|s: Word, r: Word, n: Word|
            #[trigger] transferred(calls.push(call), s, r, n) <==> (transferred(calls, s, r, n)
                || transfer_triple(call) == Some((s, r, n))),
{
    assert(calls.push(call).drop_last() =~= calls);
    assert forall|s: Word, r: Word, n: Word|
        #[trigger] transferred(calls.push(call), s, r, n) <==> (transferred(calls, s, r, n)
            || transfer_triple(call) == Some((s, r, n))) by {
        let all = calls.push(call);
        if transferred(all, s, r, n) {
            let i = choose|i: int| 0 <= i < all.len() && #[trigger] transfer_triple(all[i]) == Some((s, r, n));
            if i < calls.len() {
                assert(transfer_triple(calls[i]) == Some((s, r, n)));
            }
        }
        if transferred(calls, s, r, n) {
            let i = choose|i: int| 0 <= i < calls.len() && #[trigger] transfer_triple(calls[i]) == Some((s, r, n));
            assert(transfer_triple(all[i]) == Some((s, r, n)));
        }
        if transfer_triple(call) == Some((s, r, n)) {
            assert(transfer_triple(all[calls.len() as int]) == Some((s, r, n)));
        }
    }
}

/// One successful call keeps the supply invariant, where a transfer does not
/// reuse the sender, receiver and nonce of an earlier one.
pub proof fn lemma_supply_step(m: Map<(Word, Word), Word>, this: Word, calls: Seq<TokenCall>, call: TokenCall)
    requires
        supply_invariant(m, this, calls),
        token::call_effect(m, this, call) is Some,
        transfer_triple(call) matches Some(t) ==> !transferred(calls, t.0, t.1, t.2),
    ensures
        supply_invariant(
            apply_diffs(m, this, token::call_effect(m, this, call).unwrap().diffs),
            this,
            calls.push(call),
        ),
{
    let ks = accounts(calls);
    let new_keys = call_accounts(call);
    let ks2 = ks + new_keys;
    lemma_accounts_push(calls, call);
    let d = token::call_effect(m, this, call).unwrap().diffs;
    let m2 = apply_diffs(m, this, d);
    let ts = Word::Tag(Label::TotalSupply);
    // the keys the call adds held nothing unless already counted
    assert forall|i: int| 0 <= i < new_keys.len() implies is_account_key(#[trigger] new_keys[i]) by {}
    assert forall|i: int| 0 <= i < ks2.len() implies is_account_key(#[trigger] ks2[i]) by {
        if i >= ks.len() {
            assert(ks2[i] == new_keys[i - ks.len()]);
        }
    }
    match call {
        TokenCall::Init { sender, amount, nonce } => {
            let bk = balance_key(sender);
            assert(ks2 =~= ks.push(bk));
            lemma_holdings_push(m, this, ks, bk);
            lemma_holdings_bound(m, this, ks2, bk);
            if !ks.contains(bk) {
                assert(slot(m, this, bk) == zero());
            }
            let d0 = seq![(bk, amount)];
            let d1 = d0.push((ts, amount));
            let d2 = d1.push((Word::Tag(Label::Decimal), Word::Num(9)));
            assert(d =~= d2.push((Word::Tag(Label::Name), Word::Text(Label::Test))));
            assert(d0 =~= Seq::<(Word, Word)>::empty().push((bk, amount)));
            lemma_apply_push(m, this, Seq::empty(), (bk, amount));
            lemma_apply_push(m, this, d0, (ts, amount));
            lemma_apply_push(m, this, d1, (Word::Tag(Label::Decimal), Word::Num(9)));
            lemma_apply_push(m, this, d2, (Word::Tag(Label::Name), Word::Text(Label::Test)));
            let ma = m.insert((this, bk), amount);
            let mb = ma.insert((this, ts), amount);
            let mc = mb.insert((this, Word::Tag(Label::Decimal)), Word::Num(9));
            assert(ks2.contains(bk)) by {
                assert(ks2[ks.len() as int] == bk);
            }
            lemma_holdings_insert(m, this, ks2, bk, amount);
            assert(!ks2.contains(ts));
            assert(!ks2.contains(Word::Tag(Label::Decimal)));
            assert(!ks2.contains(Word::Tag(Label::Name)));
            lemma_holdings_insert(ma, this, ks2, ts, amount);
            lemma_holdings_insert(mb, this, ks2, Word::Tag(Label::Decimal), Word::Num(9));
            lemma_holdings_insert(mc, this, ks2, Word::Tag(Label::Name), Word::Text(Label::Test));
            assert forall|k: Word| is_account_key(k) && !ks2.contains(k) implies #[trigger] slot(
                m2,
                this,
                k,
            ) == zero() by {
                lemma_contains_concat(ks, new_keys, k);
                assert(slot(m, this, k) == zero());
            }
            assert forall|s: Word, r: Word, n: Word|
                !transferred(calls.push(call), s, r, n) implies #[trigger] slot(
                m2,
                this,
                inbox_key(s, r, n),
            ) == zero() by {
                assert(slot(m, this, inbox_key(s, r, n)) == zero());
            }
        },
        TokenCall::Transfer { sender, receiver, amount, nonce } => {
            let bk = balance_key(sender);
            let ik = inbox_key(sender, receiver, nonce);
            assert(ks2 =~= ks.push(bk).push(ik));
            lemma_holdings_push(m, this, ks, bk);
            lemma_holdings_push(m, this, ks.push(bk), ik);
            if !ks.contains(bk) {
                assert(slot(m, this, bk) == zero());
            }
            assert(slot(m, this, ik) == zero());
            let rest = word_difference(slot(m, this, bk), amount).unwrap();
            let d0 = seq![(bk, rest)];
            assert(d0 =~= Seq::<(Word, Word)>::empty().push((bk, rest)));
            assert(d =~= d0.push((ik, amount)));
            lemma_apply_push(m, this, Seq::empty(), (bk, rest));
            lemma_apply_push(m, this, d0, (ik, amount));
            let ma = m.insert((this, bk), rest);
            assert(ks2.contains(bk)) by {
                assert(ks2[ks.len() as int] == bk);
            }
            assert(ks2.contains(ik)) by {
                assert(ks2[ks.len() as int + 1] == ik);
            }
            lemma_holdings_insert(m, this, ks2, bk, rest);
            lemma_holdings_insert(ma, this, ks2, ik, amount);
            assert forall|k: Word| is_account_key(k) && !ks2.contains(k) implies #[trigger] slot(
                m2,
                this,
                k,
            ) == zero() by {
                lemma_contains_concat(ks, new_keys, k);
                assert(slot(m, this, k) == zero());
            }
            assert forall|s: Word, r: Word, n: Word|
                !transferred(calls.push(call), s, r, n) implies #[trigger] slot(
                m2,
                this,
                inbox_key(s, r, n),
            ) == zero() by {
                assert(slot(m, this, inbox_key(s, r, n)) == zero());
            }
        },
        TokenCall::Collect { sender, receiver, nonce, inbox_nonce } => {
            let bk = balance_key(receiver);
            let ik = inbox_key(sender, receiver, inbox_nonce);
            assert(ks2 =~= ks.push(bk).push(ik));
            lemma_holdings_push(m, this, ks, bk);
            lemma_holdings_push(m, this, ks.push(bk), ik);
            if !ks.contains(bk) {
                assert(slot(m, this, bk) == zero());
            }
            if !ks.push(bk).contains(ik) {
                lemma_contains_concat(ks, seq![bk], ik);
                assert(ks.push(bk) =~= ks + seq![bk]);
                assert(slot(m, this, ik) == zero());
            }
            let total = word_sum(slot(m, this, bk), slot(m, this, ik)).unwrap();
            let d0 = seq![(bk, total)];
            assert(d0 =~= Seq::<(Word, Word)>::empty().push((bk, total)));
            assert(d =~= d0.push((ik, zero())));
            lemma_apply_push(m, this, Seq::empty(), (bk, total));
            lemma_apply_push(m, this, d0, (ik, zero()));
            let ma = m.insert((this, bk), total);
            assert(ks2.contains(bk)) by {
                assert(ks2[ks.len() as int] == bk);
            }
            assert(ks2.contains(ik)) by {
                assert(ks2[ks.len() as int + 1] == ik);
            }
            lemma_holdings_insert(m, this, ks2, bk, total);
            lemma_holdings_insert(ma, this, ks2, ik, zero());
            assert forall|k: Word| is_account_key(k) && !ks2.contains(k) implies #[trigger] slot(
                m2,
                this,
                k,
            ) == zero() by {
                lemma_contains_concat(ks, new_keys, k);
                assert(slot(m, this, k) == zero());
            }
            assert forall|s: Word, r: Word, n: Word|
                !transferred(calls.push(call), s, r, n) implies #[trigger] slot(
                m2,
                this,
                inbox_key(s, r, n),
            ) == zero() by {
                assert(slot(m, this, inbox_key(s, r, n)) == zero());
            }
        },
        _ => {
            assert(ks2 =~= ks);
            let key = match call {
                TokenCall::Name => token::name_read_key(),
                TokenCall::TotalSupply => ts,
                TokenCall::Decimal => Word::Tag(Label::Decimal),
                TokenCall::BalanceOf { address } => balance_key(address),
                _ => ts,
            };
            let v = slot(m, this, key);
            assert(d =~= Seq::<(Word, Word)>::empty().push((key, v)));
            lemma_apply_push(m, this, Seq::empty(), (key, v));
            lemma_holdings_insert(m, this, ks2, key, v);
            assert forall|k: Word| is_account_key(k) && !ks2.contains(k) implies #[trigger] slot(
                m2,
                this,
                k,
            ) == zero() by {
                lemma_contains_concat(ks, new_keys, k);
                assert(slot(m, this, k) == zero());
            }
            assert forall|s: Word, r: Word, n: Word|
                !transferred(calls.push(call), s, r, n) implies #[trigger] slot(
                m2,
                this,
                inbox_key(s, r, n),
            ) == zero() by {
                assert(slot(m, this, inbox_key(s, r, n)) == zero());
            }
        },
    }
}

/// The token's supply is conserved: after any run of calls of the token from
/// a fresh storage, each call accepted and no two transfers sharing sender,
/// receiver and nonce, the balances plus the inboxes not yet collected add
/// up to the total supply. The run's balance and inbox keys (`accounts`),
/// each counted once, hold all of it: every other balance or inbox is empty.
pub proof fn supply_conserved(m: Map<(Word, Word), Word>, this: Word, calls: Seq<TokenCall>)
    requires
        fresh(m, this),
        run_calls(m, this, calls) is Some,
        transfers_distinct(calls),
    ensures
        ({
            let end = run_calls(m, this, calls).unwrap();
            &&& holdings(end, this, accounts(calls)) == amount_of(
                slot(end, this, Word::Tag(Label::TotalSupply)),
            )
            &&& forall|k: Word|
                is_account_key(k) && !accounts(calls).contains(k) ==> #[trigger] slot(end, this, k)
                    == zero()
        }),
{
    lemma_supply_invariant(m, this, calls);
}

/// The supply invariant holds along every run that `supply_conserved` admits.
pub proof fn lemma_supply_invariant(m: Map<(Word, Word), Word>, this: Word, calls: Seq<TokenCall>)
    requires
        fresh(m, this),
        run_calls(m, this, calls) is Some,
        transfers_distinct(calls),
    ensures
        supply_invariant(run_calls(m, this, calls).unwrap(), this, calls),
    decreases calls.len(),
{
    if calls.len() == 0 {
        assert(slot(m, this, Word::Tag(Label::TotalSupply)) == zero());
        assert forall|s: Word, r: Word, n: Word|
            !transferred(calls, s, r, n) implies #[trigger] slot(m, this, inbox_key(s, r, n))
            == zero() by {
            assert(slot(m, this, inbox_key(s, r, n)) == zero());
        }
    } else {
        let prefix = calls.drop_last();
        let call = calls.last();
        assert(transfers_distinct(prefix)) by {
            assert forall|i: int, j: int|
                0 <= i < j < prefix.len() && (#[trigger] transfer_triple(prefix[i])) is Some
                    implies transfer_triple(prefix[i]) != #[trigger] transfer_triple(prefix[j]) by {
                assert(prefix[i] == calls[i]);
                assert(prefix[j] == calls[j]);
            }
        }
        lemma_supply_invariant(m, this, prefix);
        let m1 = run_calls(m, this, prefix).unwrap();
        if let Some(t) = transfer_triple(call) {
            if transferred(prefix, t.0, t.1, t.2) {
                let i = choose|i: int|
                    0 <= i < prefix.len() && #[trigger] transfer_triple(prefix[i]) == Some((t.0, t.1, t.2));
                assert(prefix[i] == calls[i]);
                assert(transfer_triple(calls[i]) != transfer_triple(calls[calls.len() - 1]));
            }
        }
        lemma_supply_step(m1, this, prefix, call);
        assert(prefix.push(call) =~= calls);
    }
}

/// The values written to key `k` of contract `c`, in the order of the log.
pub open spec fn queue_values(log: Seq<(Word, Word, Word)>, c: Word, k: Word) -> Seq<Word>
    decreases log.len(),
{
    if log.len() == 0 {
        seq![]
    } else if log.last().0 == c && log.last().1 == k {
        queue_values(log.drop_last(), c, k).push(log.last().2)
    } else {
        queue_values(log.drop_last(), c, k)
    }
}

/// The latest write and the last change to a slot, read off its values.
pub proof fn lemma_last_change_values(log: Seq<(Word, Word, Word)>, c: Word, k: Word)
    ensures
        ({
            let q = queue_values(log, c, k);
            &&& latest(log, c, k) == (if q.len() > 0 {
                Some(q.last())
            } else {
                None
            })
            &&& last_change(log, c, k) == (if q.len() > 0 {
                Some(
                    SlotNode {
                        prev: if q.len() >= 2 {
                            q[q.len() - 2]
                        } else {
                            zero()
                        },
                        item: q.last(),
                    },
                )
            } else {
                None
            })
        }),
    decreases log.len(),
{
    if log.len() > 0 {
        lemma_last_change_values(log.drop_last(), c, k);
        let q0 = queue_values(log.drop_last(), c, k);
        if log.last().0 == c && log.last().1 == k {
            let q = q0.push(log.last().2);
            assert(q.drop_last() =~= q0);
            if q0.len() > 0 {
                assert(q[q.len() - 2] == q0.last());
            }
        }
    }
}

/// The values a log writes to a slot are those of its first part, then
/// those of the rest.
pub proof fn lemma_queue_values_concat(a: Seq<(Word, Word, Word)>, b: Seq<(Word, Word, Word)>, c: Word, k: Word)
    ensures
        queue_values(a + b, c, k) == queue_values(a, c, k) + queue_values(b, c, k),
    decreases b.len(),
{
    if b.len() == 0 {
        assert(a + b =~= a);
        assert(queue_values(a, c, k) + queue_values(b, c, k) =~= queue_values(a, c, k));
    } else {
        lemma_queue_values_concat(a, b.drop_last(), c, k);
        assert((a + b).drop_last() =~= a + b.drop_last());
        assert((a + b).last() == b.last());
        if b.last().0 == c && b.last().1 == k {
            assert(queue_values(a, c, k) + queue_values(b, c, k) =~= (queue_values(a, c, k)
                + queue_values(b.drop_last(), c, k)).push(b.last().2));
        }
    }
}

/// A queue walked through snapshots moves one write at a time: where the
/// values written to the slot `k` of contract `c` over the history `log` are
/// distinct and not zero, the last change to it in any snapshot of that
/// history (its first `j` writes) is fixed by the value it starts from. A
/// change from zero is the first write; a change from the value of some
/// write is the write right after it. An entry that walks a queue requires
/// its pointer to stand at the change's previous value and moves it to the
/// new one, so with the pointer at a write, the only write it can apply
/// next is the following one, and no write is applied twice while only that
/// entry moves the pointer. Where one value is written twice (the same
/// inbox deposited twice before it is collected), the change from it to
/// itself is applied again.
pub proof fn queue_change_follows(log: Seq<(Word, Word, Word)>, c: Word, k: Word, j: int)
    requires
        0 <= j <= log.len(),
        queue_values(log, c, k).no_duplicates(),
        !queue_values(log, c, k).contains(zero()),
        last_change(log.take(j), c, k) is Some,
    ensures
        ({
            let q = queue_values(log, c, k);
            let node = last_change(log.take(j), c, k).unwrap();
            &&& node.prev == zero() ==> node.item == q[0]
            &&& forall|i: int|
                0 <= i < q.len() && node.prev == #[trigger] q[i] ==> i + 1 < q.len() && node.item
                    == q[i + 1]
        }),
{
    let q = queue_values(log, c, k);
    let snap = log.take(j);
    lemma_queue_values_concat(snap, log.skip(j), c, k);
    assert(snap + log.skip(j) =~= log);
    let qs = queue_values(snap, c, k);
    lemma_last_change_values(snap, c, k);
    let node = last_change(snap, c, k).unwrap();
    let n = qs.len();
    assert(forall|i: int| 0 <= i < n ==> qs[i] == #[trigger] q[i]);
    if node.prev == zero() {
        if n >= 2 {
            assert(q.contains(q[n - 2]));
        }
    }
    assert forall|i: int| 0 <= i < q.len() && node.prev == #[trigger] q[i] implies i + 1 < q.len()
        && node.item == q[i + 1] by {
        if n >= 2 {
            assert(q[n - 2] == q[i]);
            if i != n - 2 {
                assert(!q.no_duplicates());
            }
        } else {
            assert(q.contains(q[i]));
        }
    }
}

/// Deposits are credited in the order they were queued: where every deposit
/// key is written once to the deposit queue of `token` over the history
/// `log`, a `deposit_reduce` that reads a snapshot of that history (its
/// first `j` writes) and is accepted applies the deposit written right after
/// the one the token's deposit pointer stands at (the first deposit, while
/// the pointer is zero), and moves the pointer to it. So while only this
/// entry moves the pointer, no queued deposit is credited twice.
pub proof fn deposit_reduce_applies_next(
    m: Map<(Word, Word), Word>,
    this: Word,
    log: Seq<(Word, Word, Word)>,
    j: int,
    token: Word,
)
    requires
        0 <= j <= log.len(),
        queue_values(log, this, dex::deposit_queue_key(token)).no_duplicates(),
        !queue_values(log, this, dex::deposit_queue_key(token)).contains(zero()),
        dex::on_last_change(
            log.take(j),
            this,
            dex::deposit_queue_key(token),
            |node: SlotNode| dex::deposit_reduce_effect(m, this, node),
        ) is Some,
    ensures
        ({
            let q = queue_values(log, this, dex::deposit_queue_key(token));
            let node = last_change(log.take(j), this, dex::deposit_queue_key(token)).unwrap();
            let pointer_key = hashed(Word::Tag(Label::Deposit), slot(m, this, dex::field(node.item, 2)));
            let pointer = slot(m, this, pointer_key);
            let e = dex::on_last_change(
                log.take(j),
                this,
                dex::deposit_queue_key(token),
                |node: SlotNode| dex::deposit_reduce_effect(m, this, node),
            ).unwrap();
            &&& pointer == zero() ==> node.item == q[0]
            &&& forall|i: int|
                0 <= i < q.len() && pointer == #[trigger] q[i] ==> i + 1 < q.len() && node.item
                    == q[i + 1]
            &&& slot(apply_diffs(m, this, e.diffs), this, pointer_key) == node.item
        }),
{
    let node = last_change(log.take(j), this, dex::deposit_queue_key(token)).unwrap();
    queue_change_follows(log, this, dex::deposit_queue_key(token), j);
    let e = dex::deposit_reduce_effect(m, this, node).unwrap();
    let pointer_key = hashed(Word::Tag(Label::Deposit), slot(m, this, dex::field(node.item, 2)));
    reveal_with_fuel(written, 3);
    lemma_slot_after(m, this, e.diffs, this, pointer_key);
}

/// Whether `k` is the key of a balance at the exchange:
/// `hash2to1(hash2to1(hash("balance"), owner), token)`.
pub open spec fn is_dex_balance_key(k: Word) -> bool {
    match k {
        Word::Hash(a, _) => match *a {
            Word::Hash(x, _) => *x == Word::Tag(Label::Balance),
            _ => false,
        },
        _ => false,
    }
}

/// Whether `after` is `before`, or both are numbers and `after` is not
/// larger.
pub open spec fn not_raised(before: Word, after: Word) -> bool {
    after == before || match (before, after) {
        (Word::Num(b), Word::Num(a)) => a <= b,
        _ => false,
    }
}

/// Whether `after` is `before`, or both are numbers and `after` is not
/// smaller.
pub open spec fn not_lowered(before: Word, after: Word) -> bool {
    after == before || match (before, after) {
        (Word::Num(b), Word::Num(a)) => a >= b,
        _ => false,
    }
}

/// Balances at the exchange move only through three entries: a deposit's
/// reduction raises one, a withdrawal or an addition of liquidity lowers
/// them, and every other entry leaves every balance as it is. The one
/// exception is a withdrawal reduction whose queued item is itself a balance
/// key, which it marks; no entry queues such an item.
pub proof fn balances_move_only_by_deposit_withdraw_add(
    m: Map<(Word, Word), Word>,
    this: Word,
    snap: Seq<(Word, Word, Word)>,
    call: dex::DexCall,
    k: Word,
)
    requires
        dex::call_effect(m, this, snap, call) is Some,
        is_dex_balance_key(k),
        call matches dex::DexCall::WithdrawReduce { token } ==> !is_dex_balance_key(
            last_change(snap, this, dex::withdraw_queue_key(token)).unwrap().item,
        ),
    ensures
        ({
            let m2 = apply_diffs(m, this, dex::call_effect(m, this, snap, call).unwrap().diffs);
            &&& (call is Withdraw || call is AddLiquidity) ==> not_raised(
                slot(m, this, k),
                slot(m2, this, k),
            )
            &&& call is DepositReduce ==> not_lowered(slot(m, this, k), slot(m2, this, k))
            &&& !(call is Withdraw || call is AddLiquidity || call is DepositReduce) ==> slot(
                m2,
                this,
                k,
            ) == slot(m, this, k)
        }),
{
    let d = dex::call_effect(m, this, snap, call).unwrap().diffs;
    reveal_with_fuel(written, 8);
    lemma_slot_after(m, this, d, this, k);
}

/// Withdrawing what a deposit credited undoes the credit: where `sender`'s
/// balance of the token that pool `pool` lists under `flag` is `base +
/// amount`, a withdrawal of `amount` is accepted and leaves `base`.
pub proof fn withdraw_undoes_credit(
    m: Map<(Word, Word), Word>,
    this: Word,
    sender: Word,
    base: u128,
    amount: u128,
    nonce: Word,
    pool: Word,
    flag: Word,
)
    requires
        base + amount <= u128::MAX,
        slot(m, this, dex::dex_balance_key(sender, slot(m, this, hashed(pool, flag)))) == Word::Num(
            (base + amount) as u128,
        ),
    ensures
        dex::withdraw_effect(m, this, sender, Word::Num(amount), nonce, pool, flag) is Some,
        slot(
            apply_diffs(
                m,
                this,
                dex::withdraw_effect(m, this, sender, Word::Num(amount), nonce, pool, flag).unwrap().diffs,
            ),
            this,
            dex::dex_balance_key(sender, slot(m, this, hashed(pool, flag))),
        ) == Word::Num(base),
{
    withdraw_debits(m, this, sender, Word::Num(amount), nonce, pool, flag);
}

} // verus!
