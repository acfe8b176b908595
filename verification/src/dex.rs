//! The exchange contract: a pool of two tokens, deposits taken from the
//! tokens' inboxes, withdrawals, and a queue of liquidity requests (swap,
//! add, remove) that a reducing entry applies to the pool's reserves.
//!
//! Each entry reads the storage of the exchange (the contract at `this`) and,
//! for some entries, of a token contract; it is refused where a constraint
//! fails, and otherwise produces its writes to the exchange's storage and the
//! approval it asks for. Entries that walk a queue read the queue's last
//! change (a [`SlotNode`]) from the exchange's snapshot, a [`Chain`] whose
//! history is the history of writes up to the snapshot.
use vstd::prelude::*;
use crate::word::{Word, Label, zero, hashed, word_sum, word_difference, hash_pair, add_words, sub_words};
use crate::chain::{Chain, Approval, Outcome, Effect, SlotNode, effect_of, slot, zero_word, last_change};
use crate::token::{inbox_key, signed_by};
use crate::args::{Arg, covered, covers, arg_list};

verus! {

/// The minimum liquidity of a pool, 10^3. No entry reads it.
pub const MINIMUM_LIQUIDITY: u128 = 1000;

/// The slot that holds the pool's key once the exchange is initialised.
pub open spec fn pool_slot() -> Word {
    Word::Tag(Label::Pool)
}

/// The word `hash2to1(key, n)` for a small index `n`.
pub open spec fn field(key: Word, n: u128) -> Word {
    hashed(key, Word::Num(n))
}

/// The word `hash2to1(key, constant_ones)`.
pub open spec fn field_ones(key: Word) -> Word {
    hashed(key, Word::Ones)
}

/// The key of `owner`'s balance of token `token` at the exchange.
pub open spec fn dex_balance_key(owner: Word, token: Word) -> Word {
    hashed(hashed(Word::Tag(Label::Balance), owner), token)
}

/// The key of a liquidity request that `sender` files under `nonce`.
pub open spec fn request_key(sender: Word, nonce: Word) -> Word {
    hashed(hashed(Word::Tag(Label::LiquidityInbox), sender), nonce)
}

/// The writes that file a liquidity request.
pub open spec fn request_diffs(key: Word, amount_0: Word, amount_1: Word, method: Label, sender: Word) -> Seq<
    (Word, Word),
> {
    seq![
        (Word::Tag(Label::LiquidityInbox), key),
        (field(key, 0), amount_0),
        (field_ones(key), amount_1),
        (field(key, 2), Word::Tag(method)),
        (field(key, 3), sender),
    ]
}

/// `init`: refused where the two tokens are the same or the pool is already
/// set; else records the pool's key and its two tokens.
pub open spec fn init_effect(m: Map<(Word, Word), Word>, this: Word, token_0: Word, token_1: Word) -> Option<
    Effect,
> {
    let pool = hashed(hashed(pool_slot(), token_0), token_1);
    if token_0 != token_1 && slot(m, this, pool_slot()) == zero() {
        Some(
            Effect {
                diffs: seq![(pool_slot(), pool), (field(pool, 0), token_0), (field_ones(pool), token_1)],
                approval: None,
            },
        )
    } else {
        None
    }
}

/// `deposit`: accepted exactly when the inbox that `sender` filled for the
/// exchange under `inbox_nonce`, in the token the pool lists under `flag`,
/// holds `amount` and is not empty; records the deposit.
pub open spec fn deposit_effect(
    m: Map<(Word, Word), Word>,
    this: Word,
    sender: Word,
    amount: Word,
    nonce: Word,
    inbox_nonce: Word,
    flag: Word,
) -> Option<Effect> {
    let key_token = hashed(slot(m, this, pool_slot()), flag);
    let token = slot(m, this, key_token);
    let inbox = inbox_key(sender, this, inbox_nonce);
    let held = slot(m, token, inbox);
    if held != zero() && held == amount {
        Some(
            Effect {
                diffs: seq![
                    (hashed(Word::Tag(Label::Inbox), key_token), inbox),
                    (field(inbox, 0), amount),
                    (field_ones(inbox), sender),
                    (field(inbox, 2), token),
                    (field(inbox, 3), inbox),
                ],
                approval: signed_by(nonce, sender),
            },
        )
    } else {
        None
    }
}

/// `deposit_reduce`: applies the deposit `node.item` once its token inbox is
/// empty and the deposit pointer of its token stands at `node.prev`; credits
/// the depositor and moves the pointer to `node.item`.
pub open spec fn deposit_reduce_effect(m: Map<(Word, Word), Word>, this: Word, node: SlotNode) -> Option<
    Effect,
> {
    let item = node.item;
    let amount = slot(m, this, field(item, 0));
    let owner = slot(m, this, field_ones(item));
    let token = slot(m, this, field(item, 2));
    let inbox = slot(m, this, field(item, 3));
    let balance_key = dex_balance_key(owner, token);
    let pointer_key = hashed(Word::Tag(Label::Deposit), token);
    if slot(m, token, inbox) == zero() && slot(m, this, pointer_key) == node.prev && word_sum(
        slot(m, this, balance_key),
        amount,
    ) is Some {
        Some(
            Effect {
                diffs: seq![
                    (pointer_key, item),
                    (balance_key, word_sum(slot(m, this, balance_key), amount).unwrap()),
                ],
                approval: None,
            },
        )
    } else {
        None
    }
}

/// `deposit_collect_auth`: where the token's slot under `node.prev` is empty,
/// its slot under `node.item` is not, and the deposit pointer of the token
/// stands at `node.prev`, moves the pointer to what the token holds under
/// `node.item`.
pub open spec fn deposit_collect_auth_effect(
    m: Map<(Word, Word), Word>,
    this: Word,
    node: SlotNode,
) -> Option<Effect> {
    let token = slot(m, this, field(node.item, 2));
    let current = slot(m, token, node.item);
    let pointer_key = hashed(Word::Tag(Label::Deposit), token);
    if slot(m, token, node.prev) == zero() && current != zero() && slot(m, this, pointer_key)
        == node.prev {
        Some(Effect { diffs: seq![(pointer_key, current)], approval: None })
    } else {
        None
    }
}

/// The key of a withdrawal request.
pub open spec fn withdrawal_key(sender: Word, token: Word, amount: Word, nonce: Word) -> Word {
    hashed(
        hashed(hashed(Word::Tag(Label::Withdraw), sender), hashed(token, amount)),
        nonce,
    )
}

/// `withdraw`: refused unless `sender`'s balance of the token that the pool
/// `pool` lists under `flag` covers `amount`; debits it and files a withdrawal
/// request.
pub open spec fn withdraw_effect(
    m: Map<(Word, Word), Word>,
    this: Word,
    sender: Word,
    amount: Word,
    nonce: Word,
    pool: Word,
    flag: Word,
) -> Option<Effect> {
    let key_token = hashed(pool, flag);
    let token = slot(m, this, key_token);
    let balance_key = dex_balance_key(sender, token);
    let request = withdrawal_key(sender, token, amount, nonce);
    match word_difference(slot(m, this, balance_key), amount) {
        Some(rest) => Some(
            Effect {
                diffs: seq![
                    (balance_key, rest),
                    (hashed(Word::Tag(Label::Withdraw), key_token), request),
                    (field(request, 0), sender),
                    (field_ones(request), token),
                    (field(request, 2), amount),
                    (field(request, 3), nonce),
                ],
                approval: Some(
                    Approval { nonce, message: hashed(token, amount), signer: sender },
                ),
            },
        ),
        None => None,
    }
}

/// The pointer of the withdrawal queue of `token`.
pub open spec fn withdraw_pointer_key(token: Word) -> Word {
    hashed(Word::Tag(Label::WithdrawReduce), token)
}

/// `withdraw_reduce`: where the withdrawal pointer of `token` stands at
/// `node.prev`, moves it to `node.item` and marks that request.
pub open spec fn withdraw_reduce_effect(
    m: Map<(Word, Word), Word>,
    this: Word,
    token: Word,
    node: SlotNode,
) -> Option<Effect> {
    let pointer_key = withdraw_pointer_key(token);
    if slot(m, this, pointer_key) == node.prev {
        Some(
            Effect { diffs: seq![(pointer_key, node.item), (node.item, Word::Ones)], approval: None },
        )
    } else {
        None
    }
}

/// `withdraw_swap_auth`: where the withdrawal pointer of `token` stands at
/// `node.prev` and `node.item` is zero, records under the withdrawal queue of
/// `token` the inbox that the exchange fills for the request's receiver under
/// `nonce`.
pub open spec fn withdraw_swap_auth_effect(
    m: Map<(Word, Word), Word>,
    this: Word,
    token: Word,
    nonce: Word,
    node: SlotNode,
) -> Option<Effect> {
    let receiver = slot(m, this, field(node.item, 0));
    if slot(m, this, withdraw_pointer_key(token)) == node.prev && node.item == zero() {
        Some(
            Effect {
                diffs: seq![
                    (hashed(Word::Tag(Label::Withdraw), token), inbox_key(this, receiver, nonce)),
                ],
                approval: None,
            },
        )
    } else {
        None
    }
}

/// `swap`: refused unless both amounts are equal, `sender`'s balance of the
/// token under `flag_0` covers the first and the reserve of the token under
/// `flag_1` covers the second; files a swap request, leaving balances as
/// they are.
pub open spec fn swap_effect(
    m: Map<(Word, Word), Word>,
    this: Word,
    sender: Word,
    nonce: Word,
    flag_0: Word,
    flag_1: Word,
    amount_0: Word,
    amount_1: Word,
) -> Option<Effect> {
    let token_0 = slot(m, this, hashed(pool_slot(), flag_0));
    let token_1 = slot(m, this, hashed(pool_slot(), flag_1));
    let key = request_key(sender, nonce);
    if amount_0 == amount_1 && word_difference(
        slot(m, this, dex_balance_key(sender, token_0)),
        amount_0,
    ) is Some && word_difference(
        slot(m, this, hashed(Word::Tag(Label::Reserve), token_1)),
        amount_1,
    ) is Some {
        Some(
            Effect {
                diffs: request_diffs(key, amount_0, amount_1, Label::SwapLiquidity, sender),
                approval: Some(Approval { nonce, message: key, signer: sender }),
            },
        )
    } else {
        None
    }
}

/// `add_liquidity`: refused unless `sender`'s balances of the pool's two
/// tokens cover the two amounts; debits them and files an add request.
pub open spec fn add_liquidity_effect(
    m: Map<(Word, Word), Word>,
    this: Word,
    sender: Word,
    pool: Word,
    nonce: Word,
    amount_0: Word,
    amount_1: Word,
) -> Option<Effect> {
    let token_0 = slot(m, this, field(pool, 0));
    let token_1 = slot(m, this, field_ones(pool));
    let key_0 = dex_balance_key(sender, token_0);
    let key_1 = dex_balance_key(sender, token_1);
    let key = request_key(sender, nonce);
    match (
        word_difference(slot(m, this, key_0), amount_0),
        word_difference(slot(m, this, key_1), amount_1),
    ) {
        (Some(rest_0), Some(rest_1)) => Some(
            Effect {
                diffs: seq![(key_0, rest_0), (key_1, rest_1)] + request_diffs(
                    key,
                    amount_0,
                    amount_1,
                    Label::AddLiquidiy,
                    sender,
                ),
                approval: Some(Approval { nonce, message: key, signer: sender }),
            },
        ),
        _ => None,
    }
}

/// `remove_liquidity`: refused unless both amounts are equal and `sender`'s
/// liquidity in each of the tokens listed under the pool slot covers them;
/// files a removal request.
pub open spec fn remove_liquidity_effect(
    m: Map<(Word, Word), Word>,
    this: Word,
    sender: Word,
    nonce: Word,
    amount_0: Word,
    amount_1: Word,
) -> Option<Effect> {
    let token_0 = slot(m, this, field(pool_slot(), 0));
    let token_1 = slot(m, this, field_ones(pool_slot()));
    let owner = hashed(Word::Tag(Label::ReserveLiquidity), sender);
    let key = request_key(sender, nonce);
    if amount_0 == amount_1 && word_difference(slot(m, this, hashed(owner, token_0)), amount_0)
        is Some && word_difference(slot(m, this, hashed(owner, token_1)), amount_1) is Some {
        Some(
            Effect {
                diffs: request_diffs(key, amount_0, amount_1, Label::RemoveLiquidity, sender),
                approval: Some(Approval { nonce, message: key, signer: sender }),
            },
        )
    } else {
        None
    }
}

/// `if c { a } else { b }`, the builder's `cond`.
pub open spec fn pick(c: bool, a: Word, b: Word) -> Word {
    if c {
        a
    } else {
        b
    }
}

/// The values that the reduction of the liquidity queue reads.
pub struct ReduceInputs {
    pub reserve_key_0: Word,
    pub reserve_key_1: Word,
    pub user_key_1: Word,
    pub reserve_0: Word,
    pub reserve_1: Word,
    pub user_0: Word,
    pub user_1: Word,
    pub amount_0: Word,
    pub amount_1: Word,
    pub method: Word,
}

/// What the reduction of the liquidity queue reads for request `item`.
pub open spec fn reduce_inputs(m: Map<(Word, Word), Word>, this: Word, item: Word) -> ReduceInputs {
    let pool = slot(m, this, pool_slot());
    let token_key_0 = field(pool, 0);
    let token_key_1 = field_ones(pool);
    let user = slot(m, this, field(item, 3));
    let reserve_key_0 = hashed(Word::Tag(Label::ReserveLiquidity), token_key_0);
    let reserve_key_1 = hashed(Word::Tag(Label::ReserveLiquidity), token_key_1);
    let owner = hashed(Word::Tag(Label::ReserveLiquidity), user);
    ReduceInputs {
        reserve_key_0,
        reserve_key_1,
        user_key_1: hashed(owner, token_key_1),
        reserve_0: slot(m, this, reserve_key_0),
        reserve_1: slot(m, this, reserve_key_1),
        user_0: slot(m, this, hashed(owner, token_key_0)),
        user_1: slot(m, this, hashed(owner, token_key_1)),
        amount_0: slot(m, this, field(item, 0)),
        amount_1: slot(m, this, field_ones(item)),
        method: slot(m, this, field(item, 2)),
    }
}

/// Whether every sum and difference that the reduction computes is defined.
pub open spec fn reduce_arithmetic_ok(x: ReduceInputs) -> bool {
    &&& word_sum(x.reserve_0, x.amount_0) is Some
    &&& word_difference(x.reserve_1, x.amount_1) is Some
    &&& word_sum(x.reserve_1, x.amount_1) is Some
    &&& word_sum(x.user_0, x.amount_0) is Some
    &&& word_sum(x.user_0, x.amount_1) is Some
    &&& word_difference(x.reserve_0, x.amount_0) is Some
    &&& word_sum(x.user_1, x.amount_1) is Some
}

/// The writes of the reduction of the liquidity queue for request `item`:
/// the pool's reserves and the user's liquidity, updated by the request's
/// method ("add_liquidiy", "remove_liquidiy" or "swap_liquidity"; any other
/// method leaves them as they were), written back under the keys the
/// contract uses, and the queue pointer moved to `item`.
pub open spec fn reduce_diffs(x: ReduceInputs, item: Word) -> Seq<(Word, Word)> {
    let is_add = x.method == Word::Tag(Label::AddLiquidiy);
    let is_remove = x.method == Word::Tag(Label::RemoveLiquidiy);
    let is_swap = x.method == Word::Tag(Label::SwapLiquidity);
    let reserve_0 = pick(
        is_add,
        word_sum(x.reserve_0, x.amount_0).unwrap(),
        pick(
            is_remove,
            word_difference(x.reserve_0, x.amount_0).unwrap(),
            pick(is_swap, word_sum(x.reserve_0, x.amount_0).unwrap(), x.reserve_0),
        ),
    );
    let reserve_1 = pick(
        is_add,
        word_sum(x.reserve_1, x.amount_1).unwrap(),
        pick(
            is_remove,
            word_difference(x.reserve_1, x.amount_1).unwrap(),
            pick(is_swap, word_difference(x.reserve_1, x.amount_1).unwrap(), x.reserve_1),
        ),
    );
    let user_0 = pick(
        is_remove,
        word_sum(x.user_0, x.amount_0).unwrap(),
        pick(is_add, word_sum(x.user_0, x.amount_0).unwrap(), x.user_0),
    );
    let user_1 = pick(
        is_remove,
        word_sum(x.user_1, x.amount_1).unwrap(),
        pick(is_add, word_sum(x.user_0, x.amount_1).unwrap(), x.user_1),
    );
    seq![
        (x.reserve_key_0, reserve_0),
        (x.reserve_key_1, reserve_1),
        (x.reserve_key_0, user_0),
        (x.user_key_1, user_1),
        (Word::Tag(Label::LiquidityReduce), item),
    ]
}

/// `liquidity_reduce`: applies the request `node.item` where the queue
/// pointer stands at `node.prev` and every sum and difference the reduction
/// computes, whatever the method, is defined.
pub open spec fn liquidity_reduce_effect(m: Map<(Word, Word), Word>, this: Word, node: SlotNode) -> Option<
    Effect,
> {
    let x = reduce_inputs(m, this, node.item);
    if slot(m, this, Word::Tag(Label::LiquidityReduce)) == node.prev && reduce_arithmetic_ok(x) {
        Some(Effect { diffs: reduce_diffs(x, node.item), approval: None })
    } else {
        None
    }
}

/// Builds `hash2to1(key, n)`.
fn field_word(key: &Word, n: u128) -> (r: Word)
    ensures
        r == field(*key, n),
{
    hash_pair(key.copy(), Word::Num(n))
}

/// Builds `hash2to1(key, constant_ones)`.
fn field_ones_word(key: &Word) -> (r: Word)
    ensures
        r == field_ones(*key),
{
    hash_pair(key.copy(), Word::Ones)
}

/// Builds the key of `owner`'s balance of `token`.
fn dex_balance_key_word(owner: &Word, token: &Word) -> (r: Word)
    ensures
        r == dex_balance_key(*owner, *token),
{
    hash_pair(hash_pair(Word::Tag(Label::Balance), owner.copy()), token.copy())
}

/// Builds the key of a liquidity request.
fn request_key_word(sender: &Word, nonce: &Word) -> (r: Word)
    ensures
        r == request_key(*sender, *nonce),
{
    hash_pair(hash_pair(Word::Tag(Label::LiquidityInbox), sender.copy()), nonce.copy())
}

/// Appends the writes that file a liquidity request.
fn push_request(
    diffs: &mut Vec<(Word, Word)>,
    key: &Word,
    amount_0: &Word,
    amount_1: &Word,
    method: Label,
    sender: &Word,
)
    ensures
        final(diffs)@ == old(diffs)@ + request_diffs(*key, *amount_0, *amount_1, method, *sender),
{
    diffs.push((Word::Tag(Label::LiquidityInbox), key.copy()));
    diffs.push((field_word(key, 0), amount_0.copy()));
    diffs.push((field_ones_word(key), amount_1.copy()));
    diffs.push((field_word(key, 2), Word::Tag(method)));
    diffs.push((field_word(key, 3), sender.copy()));
    assert(diffs@ =~= old(diffs)@ + request_diffs(*key, *amount_0, *amount_1, method, *sender));
}

/// Entry `init`.
pub fn init(chain: &Chain, this: &Word, token_0: &Word, token_1: &Word) -> (r: Option<Outcome>)
    ensures
        effect_of(r) == init_effect(chain@, *this, *token_0, *token_1),
{
    if token_0.same(token_1) {
        return None;
    }
    let current = chain.read(this, &Word::Tag(Label::Pool));
    if !current.is_zero() {
        return None;
    }
    let pool = hash_pair(hash_pair(Word::Tag(Label::Pool), token_0.copy()), token_1.copy());
    let mut diffs: Vec<(Word, Word)> = Vec::new();
    diffs.push((Word::Tag(Label::Pool), pool.copy()));
    diffs.push((field_word(&pool, 0), token_0.copy()));
    diffs.push((field_ones_word(&pool), token_1.copy()));
    let r = Outcome { diffs, approval: None };
    assert(r@.diffs =~= init_effect(chain@, *this, *token_0, *token_1).unwrap().diffs);
    Some(r)
}

/// Entry `deposit`.
pub fn deposit(
    chain: &Chain,
    this: &Word,
    sender: &Word,
    amount: &Word,
    nonce: &Word,
    inbox_nonce: &Word,
    flag: &Word,
) -> (r: Option<Outcome>)
    ensures
        effect_of(r) == deposit_effect(chain@, *this, *sender, *amount, *nonce, *inbox_nonce, *flag),
{
    let pool = chain.read(this, &Word::Tag(Label::Pool));
    let key_token = hash_pair(pool, flag.copy());
    let token = chain.read(this, &key_token);
    let inbox = hash_pair(
        hash_pair(Word::Tag(Label::Inbox), sender.copy()),
        hash_pair(this.copy(), inbox_nonce.copy()),
    );
    let held = chain.read(&token, &inbox);
    if held.is_zero() || !held.same(amount) {
        return None;
    }
    let mut diffs: Vec<(Word, Word)> = Vec::new();
    diffs.push((hash_pair(Word::Tag(Label::Inbox), key_token), inbox.copy()));
    diffs.push((field_word(&inbox, 0), amount.copy()));
    diffs.push((field_ones_word(&inbox), sender.copy()));
    diffs.push((field_word(&inbox, 2), token));
    diffs.push((field_word(&inbox, 3), inbox.copy()));
    let r = Outcome {
        diffs,
        approval: Some(Approval { nonce: nonce.copy(), message: sender.copy(), signer: sender.copy() }),
    };
    assert(r@.diffs =~= deposit_effect(
        chain@,
        *this,
        *sender,
        *amount,
        *nonce,
        *inbox_nonce,
        *flag,
    ).unwrap().diffs);
    Some(r)
}

/// `deposit_reduce` on the change `node` of the deposit queue of one token.
fn deposit_reduce_at(chain: &Chain, this: &Word, node: &SlotNode) -> (r: Option<Outcome>)
    ensures
        effect_of(r) == deposit_reduce_effect(chain@, *this, *node),
{
    let item = &node.item;
    let amount = chain.read(this, &field_word(item, 0));
    let owner = chain.read(this, &field_ones_word(item));
    let token = chain.read(this, &field_word(item, 2));
    let inbox = chain.read(this, &field_word(item, 3));
    let held = chain.read(&token, &inbox);
    if !held.is_zero() {
        return None;
    }
    let balance_key = dex_balance_key_word(&owner, &token);
    let pointer_key = hash_pair(Word::Tag(Label::Deposit), token);
    let pointer = chain.read(this, &pointer_key);
    if !pointer.same(&node.prev) {
        return None;
    }
    let balance = chain.read(this, &balance_key);
    let total = match add_words(&balance, &amount) {
        Some(total) => total,
        None => return None,
    };
    let mut diffs: Vec<(Word, Word)> = Vec::new();
    diffs.push((pointer_key, item.copy()));
    diffs.push((balance_key, total));
    let r = Outcome { diffs, approval: None };
    assert(r@.diffs =~= deposit_reduce_effect(chain@, *this, *node).unwrap().diffs);
    Some(r)
}

/// `deposit_collect_auth` on the change `node` of the exchange's inbox slot.
fn deposit_collect_auth_at(chain: &Chain, this: &Word, node: &SlotNode) -> (r: Option<Outcome>)
    ensures
        effect_of(r) == deposit_collect_auth_effect(chain@, *this, *node),
{
    let token = chain.read(this, &field_word(&node.item, 2));
    let before = chain.read(&token, &node.prev);
    if !before.is_zero() {
        return None;
    }
    let current = chain.read(&token, &node.item);
    if current.is_zero() {
        return None;
    }
    let pointer_key = hash_pair(Word::Tag(Label::Deposit), token);
    let pointer = chain.read(this, &pointer_key);
    if !pointer.same(&node.prev) {
        return None;
    }
    let mut diffs: Vec<(Word, Word)> = Vec::new();
    diffs.push((pointer_key, current));
    let r = Outcome { diffs, approval: None };
    assert(r@.diffs =~= deposit_collect_auth_effect(chain@, *this, *node).unwrap().diffs);
    Some(r)
}

/// Entry `withdraw`.
pub fn withdraw(
    chain: &Chain,
    this: &Word,
    sender: &Word,
    amount: &Word,
    nonce: &Word,
    pool: &Word,
    flag: &Word,
) -> (r: Option<Outcome>)
    ensures
        effect_of(r) == withdraw_effect(chain@, *this, *sender, *amount, *nonce, *pool, *flag),
{
    let key_token = hash_pair(pool.copy(), flag.copy());
    let token = chain.read(this, &key_token);
    let balance_key = dex_balance_key_word(sender, &token);
    let balance = chain.read(this, &balance_key);
    let rest = match sub_words(&balance, amount) {
        Some(rest) => rest,
        None => return None,
    };
    let message = hash_pair(token.copy(), amount.copy());
    let request = hash_pair(
        hash_pair(hash_pair(Word::Tag(Label::Withdraw), sender.copy()), message.copy()),
        nonce.copy(),
    );
    let mut diffs: Vec<(Word, Word)> = Vec::new();
    diffs.push((balance_key, rest));
    diffs.push((hash_pair(Word::Tag(Label::Withdraw), key_token), request.copy()));
    diffs.push((field_word(&request, 0), sender.copy()));
    diffs.push((field_ones_word(&request), token));
    diffs.push((field_word(&request, 2), amount.copy()));
    diffs.push((field_word(&request, 3), nonce.copy()));
    let r = Outcome {
        diffs,
        approval: Some(Approval { nonce: nonce.copy(), message, signer: sender.copy() }),
    };
    assert(r@.diffs =~= withdraw_effect(
        chain@,
        *this,
        *sender,
        *amount,
        *nonce,
        *pool,
        *flag,
    ).unwrap().diffs);
    Some(r)
}

/// `withdraw_reduce` on the change `node` of the withdrawal queue of `token`.
fn withdraw_reduce_at(chain: &Chain, this: &Word, token: &Word, node: &SlotNode) -> (r: Option<
    Outcome,
>)
    ensures
        effect_of(r) == withdraw_reduce_effect(chain@, *this, *token, *node),
{
    let pointer_key = hash_pair(Word::Tag(Label::WithdrawReduce), token.copy());
    let pointer = chain.read(this, &pointer_key);
    if !pointer.same(&node.prev) {
        return None;
    }
    let mut diffs: Vec<(Word, Word)> = Vec::new();
    diffs.push((pointer_key, node.item.copy()));
    diffs.push((node.item.copy(), Word::Ones));
    let r = Outcome { diffs, approval: None };
    assert(r@.diffs =~= withdraw_reduce_effect(chain@, *this, *token, *node).unwrap().diffs);
    Some(r)
}

/// `withdraw_swap_auth` on the change `node` of the withdrawal queue of
/// `token`.
fn withdraw_swap_auth_at(
    chain: &Chain,
    this: &Word,
    token: &Word,
    nonce: &Word,
    node: &SlotNode,
) -> (r: Option<Outcome>)
    ensures
        effect_of(r) == withdraw_swap_auth_effect(chain@, *this, *token, *nonce, *node),
{
    let pointer = chain.read(this, &hash_pair(Word::Tag(Label::WithdrawReduce), token.copy()));
    if !pointer.same(&node.prev) || !node.item.is_zero() {
        return None;
    }
    let receiver = chain.read(this, &field_word(&node.item, 0));
    let inbox = hash_pair(
        hash_pair(Word::Tag(Label::Inbox), this.copy()),
        hash_pair(receiver, nonce.copy()),
    );
    let mut diffs: Vec<(Word, Word)> = Vec::new();
    diffs.push((hash_pair(Word::Tag(Label::Withdraw), token.copy()), inbox));
    let r = Outcome { diffs, approval: None };
    assert(r@.diffs =~= withdraw_swap_auth_effect(chain@, *this, *token, *nonce, *node).unwrap().diffs);
    Some(r)
}

/// Entry `swap`.
pub fn swap(
    chain: &Chain,
    this: &Word,
    sender: &Word,
    nonce: &Word,
    flag_0: &Word,
    flag_1: &Word,
    amount_0: &Word,
    amount_1: &Word,
) -> (r: Option<Outcome>)
    ensures
        effect_of(r) == swap_effect(
            chain@,
            *this,
            *sender,
            *nonce,
            *flag_0,
            *flag_1,
            *amount_0,
            *amount_1,
        ),
{
    if !amount_0.same(amount_1) {
        return None;
    }
    let token_0 = chain.read(this, &hash_pair(Word::Tag(Label::Pool), flag_0.copy()));
    let token_1 = chain.read(this, &hash_pair(Word::Tag(Label::Pool), flag_1.copy()));
    let balance = chain.read(this, &dex_balance_key_word(sender, &token_0));
    if sub_words(&balance, amount_0).is_none() {
        return None;
    }
    let reserve = chain.read(this, &hash_pair(Word::Tag(Label::Reserve), token_1));
    if sub_words(&reserve, amount_1).is_none() {
        return None;
    }
    let key = request_key_word(sender, nonce);
    let mut diffs: Vec<(Word, Word)> = Vec::new();
    push_request(&mut diffs, &key, amount_0, amount_1, Label::SwapLiquidity, sender);
    let r = Outcome {
        diffs,
        approval: Some(Approval { nonce: nonce.copy(), message: key, signer: sender.copy() }),
    };
    assert(r@.diffs =~= swap_effect(
        chain@,
        *this,
        *sender,
        *nonce,
        *flag_0,
        *flag_1,
        *amount_0,
        *amount_1,
    ).unwrap().diffs);
    Some(r)
}

/// Entry `add_liquidity`.
pub fn add_liquidity(
    chain: &Chain,
    this: &Word,
    sender: &Word,
    pool: &Word,
    nonce: &Word,
    amount_0: &Word,
    amount_1: &Word,
) -> (r: Option<Outcome>)
    ensures
        effect_of(r) == add_liquidity_effect(
            chain@,
            *this,
            *sender,
            *pool,
            *nonce,
            *amount_0,
            *amount_1,
        ),
{
    let token_0 = chain.read(this, &field_word(pool, 0));
    let token_1 = chain.read(this, &field_ones_word(pool));
    let key_0 = dex_balance_key_word(sender, &token_0);
    let key_1 = dex_balance_key_word(sender, &token_1);
    let balance_0 = chain.read(this, &key_0);
    let balance_1 = chain.read(this, &key_1);
    let rest_0 = match sub_words(&balance_0, amount_0) {
        Some(rest) => rest,
        None => return None,
    };
    let rest_1 = match sub_words(&balance_1, amount_1) {
        Some(rest) => rest,
        None => return None,
    };
    let key = request_key_word(sender, nonce);
    let mut diffs: Vec<(Word, Word)> = Vec::new();
    diffs.push((key_0, rest_0));
    diffs.push((key_1, rest_1));
    push_request(&mut diffs, &key, amount_0, amount_1, Label::AddLiquidiy, sender);
    let r = Outcome {
        diffs,
        approval: Some(Approval { nonce: nonce.copy(), message: key, signer: sender.copy() }),
    };
    assert(r@.diffs =~= add_liquidity_effect(
        chain@,
        *this,
        *sender,
        *pool,
        *nonce,
        *amount_0,
        *amount_1,
    ).unwrap().diffs);
    Some(r)
}

/// Entry `remove_liquidity`.
pub fn remove_liquidity(
    chain: &Chain,
    this: &Word,
    sender: &Word,
    nonce: &Word,
    amount_0: &Word,
    amount_1: &Word,
) -> (r: Option<Outcome>)
    ensures
        effect_of(r) == remove_liquidity_effect(
            chain@,
            *this,
            *sender,
            *nonce,
            *amount_0,
            *amount_1,
        ),
{
    if !amount_0.same(amount_1) {
        return None;
    }
    let token_0 = chain.read(this, &field_word(&Word::Tag(Label::Pool), 0));
    let token_1 = chain.read(this, &field_ones_word(&Word::Tag(Label::Pool)));
    let owner = hash_pair(Word::Tag(Label::ReserveLiquidity), sender.copy());
    let held_0 = chain.read(this, &hash_pair(owner.copy(), token_0));
    if sub_words(&held_0, amount_0).is_none() {
        return None;
    }
    let held_1 = chain.read(this, &hash_pair(owner, token_1));
    if sub_words(&held_1, amount_1).is_none() {
        return None;
    }
    let key = request_key_word(sender, nonce);
    let mut diffs: Vec<(Word, Word)> = Vec::new();
    push_request(&mut diffs, &key, amount_0, amount_1, Label::RemoveLiquidity, sender);
    let r = Outcome {
        diffs,
        approval: Some(Approval { nonce: nonce.copy(), message: key, signer: sender.copy() }),
    };
    assert(r@.diffs =~= remove_liquidity_effect(
        chain@,
        *this,
        *sender,
        *nonce,
        *amount_0,
        *amount_1,
    ).unwrap().diffs);
    Some(r)
}

/// Reads what the reduction of the liquidity queue needs for request `item`.
fn read_reduce_inputs(chain: &Chain, this: &Word, item: &Word) -> (r: ReduceInputs)
    ensures
        r == reduce_inputs(chain@, *this, *item),
{
    let pool = chain.read(this, &Word::Tag(Label::Pool));
    let token_key_0 = field_word(&pool, 0);
    let token_key_1 = field_ones_word(&pool);
    let user = chain.read(this, &field_word(item, 3));
    let reserve_key_0 = hash_pair(Word::Tag(Label::ReserveLiquidity), token_key_0.copy());
    let reserve_key_1 = hash_pair(Word::Tag(Label::ReserveLiquidity), token_key_1.copy());
    let owner = hash_pair(Word::Tag(Label::ReserveLiquidity), user);
    let user_key_0 = hash_pair(owner.copy(), token_key_0);
    let user_key_1 = hash_pair(owner, token_key_1);
    let reserve_0 = chain.read(this, &reserve_key_0);
    let reserve_1 = chain.read(this, &reserve_key_1);
    let user_0 = chain.read(this, &user_key_0);
    let user_1 = chain.read(this, &user_key_1);
    let amount_0 = chain.read(this, &field_word(item, 0));
    let amount_1 = chain.read(this, &field_ones_word(item));
    let method = chain.read(this, &field_word(item, 2));
    ReduceInputs {
        reserve_key_0,
        reserve_key_1,
        user_key_1,
        reserve_0,
        reserve_1,
        user_0,
        user_1,
        amount_0,
        amount_1,
        method,
    }
}

/// `cond` of the builder on exec words.
fn pick_word(c: bool, a: Word, b: Word) -> (r: Word)
    ensures
        r == pick(c, a, b),
{
    if c {
        a
    } else {
        b
    }
}

/// `liquidity_reduce` on the change `node` of the liquidity queue.
fn liquidity_reduce_at(chain: &Chain, this: &Word, node: &SlotNode) -> (r: Option<Outcome>)
    ensures
        effect_of(r) == liquidity_reduce_effect(chain@, *this, *node),
{
    let x = read_reduce_inputs(chain, this, &node.item);
    let pointer = chain.read(this, &Word::Tag(Label::LiquidityReduce));
    if !pointer.same(&node.prev) {
        return None;
    }
    let swap_0 = match add_words(&x.reserve_0, &x.amount_0) {
        Some(w) => w,
        None => return None,
    };
    let swap_1 = match sub_words(&x.reserve_1, &x.amount_1) {
        Some(w) => w,
        None => return None,
    };
    let add_0 = match add_words(&x.reserve_0, &x.amount_0) {
        Some(w) => w,
        None => return None,
    };
    let add_1 = match add_words(&x.reserve_1, &x.amount_1) {
        Some(w) => w,
        None => return None,
    };
    let add_user_0 = match add_words(&x.user_0, &x.amount_0) {
        Some(w) => w,
        None => return None,
    };
    let add_user_1 = match add_words(&x.user_0, &x.amount_1) {
        Some(w) => w,
        None => return None,
    };
    let remove_0 = match sub_words(&x.reserve_0, &x.amount_0) {
        Some(w) => w,
        None => return None,
    };
    let remove_1 = match sub_words(&x.reserve_1, &x.amount_1) {
        Some(w) => w,
        None => return None,
    };
    let remove_user_0 = match add_words(&x.user_0, &x.amount_0) {
        Some(w) => w,
        None => return None,
    };
    let remove_user_1 = match add_words(&x.user_1, &x.amount_1) {
        Some(w) => w,
        None => return None,
    };
    let is_add = x.method.same(&Word::Tag(Label::AddLiquidiy));
    let is_remove = x.method.same(&Word::Tag(Label::RemoveLiquidiy));
    let is_swap = x.method.same(&Word::Tag(Label::SwapLiquidity));
    let reserve_0 = pick_word(
        is_add,
        add_0,
        pick_word(is_remove, remove_0, pick_word(is_swap, swap_0, x.reserve_0.copy())),
    );
    let reserve_1 = pick_word(
        is_add,
        add_1,
        pick_word(is_remove, remove_1, pick_word(is_swap, swap_1, x.reserve_1.copy())),
    );
    let user_0 = pick_word(is_remove, remove_user_0, pick_word(is_add, add_user_0, x.user_0.copy()));
    let user_1 = pick_word(is_remove, remove_user_1, pick_word(is_add, add_user_1, x.user_1.copy()));
    let mut diffs: Vec<(Word, Word)> = Vec::new();
    diffs.push((x.reserve_key_0.copy(), reserve_0));
    diffs.push((x.reserve_key_1.copy(), reserve_1));
    diffs.push((x.reserve_key_0.copy(), user_0));
    diffs.push((x.user_key_1.copy(), user_1));
    diffs.push((Word::Tag(Label::LiquidityReduce), node.item.copy()));
    let r = Outcome { diffs, approval: None };
    assert(r@.diffs =~= liquidity_reduce_effect(chain@, *this, *node).unwrap().diffs);
    Some(r)
}

/// The deposit queue of `token`: the slot each deposit records its inbox in.
pub open spec fn deposit_queue_key(token: Word) -> Word {
    hashed(Word::Tag(Label::Inbox), token)
}

/// The withdrawal queue of `token`.
pub open spec fn withdraw_queue_key(token: Word) -> Word {
    hashed(Word::Tag(Label::Withdraw), token)
}

/// What an entry that walks the queue `queue` does: refused where the
/// snapshot `history` never wrote the queue, else what `step` does with the
/// queue's last change in the snapshot.
pub open spec fn on_last_change(
    history: Seq<(Word, Word, Word)>,
    this: Word,
    queue: Word,
    step: spec_fn(SlotNode) -> Option<Effect>,
) -> Option<Effect> {
    match last_change(history, this, queue) {
        Some(node) => step(node),
        None => None,
    }
}

/// Entry `deposit_reduce`: applies the last change, in the exchange's
/// snapshot `snapshot`, of the deposit queue of `token`.
pub fn deposit_reduce(chain: &Chain, this: &Word, snapshot: &Chain, token: &Word) -> (r: Option<
    Outcome,
>)
    ensures
        effect_of(r) == on_last_change(
            snapshot.history(),
            *this,
            deposit_queue_key(*token),
            |node: SlotNode| deposit_reduce_effect(chain@, *this, node),
        ),
{
    let queue = hash_pair(Word::Tag(Label::Inbox), token.copy());
    match snapshot.last_change(this, &queue) {
        Some(node) => deposit_reduce_at(chain, this, &node),
        None => None,
    }
}

/// Entry `deposit_collect_auth`: works on the last change, in the exchange's
/// snapshot `snapshot`, of its slot under the hash of "inbox".
pub fn deposit_collect_auth(chain: &Chain, this: &Word, snapshot: &Chain) -> (r: Option<Outcome>)
    ensures
        effect_of(r) == on_last_change(
            snapshot.history(),
            *this,
            Word::Tag(Label::Inbox),
            |node: SlotNode| deposit_collect_auth_effect(chain@, *this, node),
        ),
{
    match snapshot.last_change(this, &Word::Tag(Label::Inbox)) {
        Some(node) => deposit_collect_auth_at(chain, this, &node),
        None => None,
    }
}

/// Entry `withdraw_reduce`: applies the last change, in the exchange's
/// snapshot `snapshot`, of the withdrawal queue of `token`.
pub fn withdraw_reduce(chain: &Chain, this: &Word, snapshot: &Chain, token: &Word) -> (r: Option<
    Outcome,
>)
    ensures
        effect_of(r) == on_last_change(
            snapshot.history(),
            *this,
            withdraw_queue_key(*token),
            |node: SlotNode| withdraw_reduce_effect(chain@, *this, *token, node),
        ),
{
    let queue = hash_pair(Word::Tag(Label::Withdraw), token.copy());
    match snapshot.last_change(this, &queue) {
        Some(node) => withdraw_reduce_at(chain, this, token, &node),
        None => None,
    }
}

/// Entry `withdraw_swap_auth`: works on the last change, in the exchange's
/// snapshot `snapshot`, of the withdrawal queue of `token`.
pub fn withdraw_swap_auth(
    chain: &Chain,
    this: &Word,
    snapshot: &Chain,
    token: &Word,
    nonce: &Word,
) -> (r: Option<Outcome>)
    ensures
        effect_of(r) == on_last_change(
            snapshot.history(),
            *this,
            withdraw_queue_key(*token),
            |node: SlotNode| withdraw_swap_auth_effect(chain@, *this, *token, *nonce, node),
        ),
{
    let queue = hash_pair(Word::Tag(Label::Withdraw), token.copy());
    match snapshot.last_change(this, &queue) {
        Some(node) => withdraw_swap_auth_at(chain, this, token, nonce, &node),
        None => None,
    }
}

/// Entry `liquidity_reduce`: applies the last change, in the exchange's
/// snapshot `snapshot`, of the liquidity queue.
pub fn liquidity_reduce(chain: &Chain, this: &Word, snapshot: &Chain) -> (r: Option<Outcome>)
    ensures
        effect_of(r) == on_last_change(
            snapshot.history(),
            *this,
            Word::Tag(Label::LiquidityInbox),
            |node: SlotNode| liquidity_reduce_effect(chain@, *this, node),
        ),
{
    match snapshot.last_change(this, &Word::Tag(Label::LiquidityInbox)) {
        Some(node) => liquidity_reduce_at(chain, this, &node),
        None => None,
    }
}

/// The entries of the exchange, in the order the contract lists them.
#[derive(PartialEq, Eq, Structural, Clone, Copy, Debug)]
pub enum DexEntry {
    Init,
    Deposit,
    DepositReduce,
    DepositCollectAuth,
    Withdraw,
    WithdrawReduce,
    WithdrawSwapAuth,
    Swap,
    AddLiquidity,
    RemoveLiquidity,
}

/// A call of an entry of the exchange, with its arguments. An entry that
/// walks a queue reads the queue's last change from the exchange's snapshot;
/// `token` names the queue.
pub enum DexCall {
    Init { token_0: Word, token_1: Word },
    Deposit { sender: Word, amount: Word, nonce: Word, inbox_nonce: Word, flag: Word },
    DepositReduce { token: Word },
    DepositCollectAuth,
    Withdraw { sender: Word, amount: Word, nonce: Word, pool: Word, flag: Word },
    WithdrawReduce { token: Word },
    WithdrawSwapAuth { token: Word, nonce: Word },
    Swap {
        sender: Word,
        nonce: Word,
        flag_0: Word,
        flag_1: Word,
        amount_0: Word,
        amount_1: Word,
    },
    AddLiquidity { sender: Word, pool: Word, nonce: Word, amount_0: Word, amount_1: Word },
    RemoveLiquidity { sender: Word, nonce: Word, amount_0: Word, amount_1: Word },
}

impl DexCall {
    /// The entry that the call is for.
    pub open spec fn entry_kind(&self) -> DexEntry {
        match self {
            DexCall::Init { .. } => DexEntry::Init,
            DexCall::Deposit { .. } => DexEntry::Deposit,
            DexCall::DepositReduce { .. } => DexEntry::DepositReduce,
            DexCall::DepositCollectAuth => DexEntry::DepositCollectAuth,
            DexCall::Withdraw { .. } => DexEntry::Withdraw,
            DexCall::WithdrawReduce { .. } => DexEntry::WithdrawReduce,
            DexCall::WithdrawSwapAuth { .. } => DexEntry::WithdrawSwapAuth,
            DexCall::Swap { .. } => DexEntry::Swap,
            DexCall::AddLiquidity { .. } => DexEntry::AddLiquidity,
            DexCall::RemoveLiquidity { .. } => DexEntry::RemoveLiquidity,
        }
    }
}

/// The arguments that the exchange hands to an entry.
pub open spec fn supplied_args(kind: DexEntry) -> Seq<Arg> {
    match kind {
        DexEntry::Init => seq![Arg::Token0, Arg::Token1],
        DexEntry::Deposit => seq![
            Arg::Sender,
            Arg::Amount,
            Arg::Nonce,
            Arg::Proof,
            Arg::InboxNonce,
            Arg::Pool,
            Arg::Flag,
        ],
        DexEntry::DepositReduce => seq![Arg::Token],
        DexEntry::DepositCollectAuth => seq![],
        DexEntry::Withdraw => seq![Arg::Sender, Arg::Amount, Arg::Nonce, Arg::Proof, Arg::Pool, Arg::Flag],
        DexEntry::WithdrawReduce => seq![Arg::Token, Arg::Nonce],
        DexEntry::WithdrawSwapAuth => seq![
            Arg::Sender,
            Arg::Proof,
            Arg::Nonce,
            Arg::Flag0,
            Arg::Flag1,
            Arg::Token0Amount,
            Arg::Token1Amount,
        ],
        DexEntry::Swap => seq![
            Arg::Sender,
            Arg::Proof,
            Arg::Pool,
            Arg::Nonce,
            Arg::Token0Amount,
            Arg::Token1Amount,
        ],
        DexEntry::AddLiquidity => seq![
            Arg::Sender,
            Arg::Proof,
            Arg::Nonce,
            Arg::Token0Amount,
            Arg::Token1Amount,
        ],
        DexEntry::RemoveLiquidity => seq![],
    }
}

/// The arguments that an entry's circuit reads.
pub open spec fn read_args(kind: DexEntry) -> Seq<Arg> {
    match kind {
        DexEntry::Init => seq![Arg::Token0, Arg::Token1],
        DexEntry::Deposit => seq![
            Arg::Sender,
            Arg::Amount,
            Arg::Nonce,
            Arg::Proof,
            Arg::InboxNonce,
            Arg::Flag,
        ],
        DexEntry::DepositReduce => seq![Arg::Token],
        DexEntry::DepositCollectAuth => seq![],
        DexEntry::Withdraw => seq![Arg::Sender, Arg::Amount, Arg::Nonce, Arg::Proof, Arg::Pool, Arg::Flag],
        DexEntry::WithdrawReduce => seq![Arg::Token],
        DexEntry::WithdrawSwapAuth => seq![Arg::Token, Arg::Nonce],
        DexEntry::Swap => seq![
            Arg::Sender,
            Arg::Proof,
            Arg::Nonce,
            Arg::Flag0,
            Arg::Flag1,
            Arg::Token0Amount,
            Arg::Token1Amount,
        ],
        DexEntry::AddLiquidity => seq![
            Arg::Sender,
            Arg::Proof,
            Arg::Pool,
            Arg::Nonce,
            Arg::Token0Amount,
            Arg::Token1Amount,
        ],
        DexEntry::RemoveLiquidity => seq![
            Arg::Sender,
            Arg::Proof,
            Arg::Nonce,
            Arg::Token0Amount,
            Arg::Token1Amount,
        ],
    }
}

/// The arguments that the exchange hands to an entry.
pub fn supplied_arg_list(kind: DexEntry) -> (r: Vec<Arg>)
    ensures
        r@ == supplied_args(kind),
{
    match kind {
        DexEntry::Init => arg_list(&[Arg::Token0, Arg::Token1]),
        DexEntry::Deposit => arg_list(
            &[
                Arg::Sender,
                Arg::Amount,
                Arg::Nonce,
                Arg::Proof,
                Arg::InboxNonce,
                Arg::Pool,
                Arg::Flag,
            ],
        ),
        DexEntry::DepositReduce => arg_list(&[Arg::Token]),
        DexEntry::DepositCollectAuth => Vec::new(),
        DexEntry::Withdraw => arg_list(
            &[Arg::Sender, Arg::Amount, Arg::Nonce, Arg::Proof, Arg::Pool, Arg::Flag],
        ),
        DexEntry::WithdrawReduce => arg_list(&[Arg::Token, Arg::Nonce]),
        DexEntry::WithdrawSwapAuth => arg_list(
            &[
                Arg::Sender,
                Arg::Proof,
                Arg::Nonce,
                Arg::Flag0,
                Arg::Flag1,
                Arg::Token0Amount,
                Arg::Token1Amount,
            ],
        ),
        DexEntry::Swap => arg_list(
            &[Arg::Sender, Arg::Proof, Arg::Pool, Arg::Nonce, Arg::Token0Amount, Arg::Token1Amount],
        ),
        DexEntry::AddLiquidity => arg_list(
            &[Arg::Sender, Arg::Proof, Arg::Nonce, Arg::Token0Amount, Arg::Token1Amount],
        ),
        DexEntry::RemoveLiquidity => Vec::new(),
    }
}

/// The arguments that an entry's circuit reads.
pub fn read_arg_list(kind: DexEntry) -> (r: Vec<Arg>)
    ensures
        r@ == read_args(kind),
{
    match kind {
        DexEntry::Init => arg_list(&[Arg::Token0, Arg::Token1]),
        DexEntry::Deposit => arg_list(
            &[Arg::Sender, Arg::Amount, Arg::Nonce, Arg::Proof, Arg::InboxNonce, Arg::Flag],
        ),
        DexEntry::DepositReduce => arg_list(&[Arg::Token]),
        DexEntry::DepositCollectAuth => Vec::new(),
        DexEntry::Withdraw => arg_list(
            &[Arg::Sender, Arg::Amount, Arg::Nonce, Arg::Proof, Arg::Pool, Arg::Flag],
        ),
        DexEntry::WithdrawReduce => arg_list(&[Arg::Token]),
        DexEntry::WithdrawSwapAuth => arg_list(&[Arg::Token, Arg::Nonce]),
        DexEntry::Swap => arg_list(
            &[
                Arg::Sender,
                Arg::Proof,
                Arg::Nonce,
                Arg::Flag0,
                Arg::Flag1,
                Arg::Token0Amount,
                Arg::Token1Amount,
            ],
        ),
        DexEntry::AddLiquidity => arg_list(
            &[Arg::Sender, Arg::Proof, Arg::Pool, Arg::Nonce, Arg::Token0Amount, Arg::Token1Amount],
        ),
        DexEntry::RemoveLiquidity => arg_list(
            &[Arg::Sender, Arg::Proof, Arg::Nonce, Arg::Token0Amount, Arg::Token1Amount],
        ),
    }
}

/// What a call of the exchange at `this` does on storage `m`, with the
/// exchange's snapshot history `snap`.
pub open spec fn call_effect(
    m: Map<(Word, Word), Word>,
    this: Word,
    snap: Seq<(Word, Word, Word)>,
    call: DexCall,
) -> Option<Effect> {
    match call {
        DexCall::Init { token_0, token_1 } => init_effect(m, this, token_0, token_1),
        DexCall::Deposit { sender, amount, nonce, inbox_nonce, flag } => deposit_effect(
            m,
            this,
            sender,
            amount,
            nonce,
            inbox_nonce,
            flag,
        ),
        DexCall::DepositReduce { token } => on_last_change(
            snap,
            this,
            deposit_queue_key(token),
            |node: SlotNode| deposit_reduce_effect(m, this, node),
        ),
        DexCall::DepositCollectAuth => on_last_change(
            snap,
            this,
            Word::Tag(Label::Inbox),
            |node: SlotNode| deposit_collect_auth_effect(m, this, node),
        ),
        DexCall::Withdraw { sender, amount, nonce, pool, flag } => withdraw_effect(
            m,
            this,
            sender,
            amount,
            nonce,
            pool,
            flag,
        ),
        DexCall::WithdrawReduce { token } => on_last_change(
            snap,
            this,
            withdraw_queue_key(token),
            |node: SlotNode| withdraw_reduce_effect(m, this, token, node),
        ),
        DexCall::WithdrawSwapAuth { token, nonce } => on_last_change(
            snap,
            this,
            withdraw_queue_key(token),
            |node: SlotNode| withdraw_swap_auth_effect(m, this, token, nonce, node),
        ),
        DexCall::Swap { sender, nonce, flag_0, flag_1, amount_0, amount_1 } => swap_effect(
            m,
            this,
            sender,
            nonce,
            flag_0,
            flag_1,
            amount_0,
            amount_1,
        ),
        DexCall::AddLiquidity { sender, pool, nonce, amount_0, amount_1 } => add_liquidity_effect(
            m,
            this,
            sender,
            pool,
            nonce,
            amount_0,
            amount_1,
        ),
        DexCall::RemoveLiquidity { sender, nonce, amount_0, amount_1 } => remove_liquidity_effect(
            m,
            this,
            sender,
            nonce,
            amount_0,
            amount_1,
        ),
    }
}

/// The exchange contract: the address of each of its entries. The first six
/// are the addresses it publishes; the contract dispatches to all ten.
pub struct Dex {
    pub init_address: Word,
    pub deposit_address: Word,
    pub withdraw_address: Word,
    pub swap_address: Word,
    pub addliquidity_address: Word,
    pub removeliquity_address: Word,
    pub deposit_reduce_address: Word,
    pub deposit_collect_auth_address: Word,
    pub withdraw_reduce_address: Word,
    pub withdraw_swap_auth_address: Word,
}

impl Dex {
    /// The exchange whose entries have the given addresses.
    pub fn new(
        init_address: Word,
        deposit_address: Word,
        withdraw_address: Word,
        swap_address: Word,
        addliquidity_address: Word,
        removeliquity_address: Word,
        deposit_reduce_address: Word,
        deposit_collect_auth_address: Word,
        withdraw_reduce_address: Word,
        withdraw_swap_auth_address: Word,
    ) -> (r: Dex)
        ensures
            r.init_address == init_address,
            r.deposit_address == deposit_address,
            r.withdraw_address == withdraw_address,
            r.swap_address == swap_address,
            r.addliquidity_address == addliquidity_address,
            r.removeliquity_address == removeliquity_address,
            r.deposit_reduce_address == deposit_reduce_address,
            r.deposit_collect_auth_address == deposit_collect_auth_address,
            r.withdraw_reduce_address == withdraw_reduce_address,
            r.withdraw_swap_auth_address == withdraw_swap_auth_address,
    {
        Dex {
            init_address,
            deposit_address,
            withdraw_address,
            swap_address,
            addliquidity_address,
            removeliquity_address,
            deposit_reduce_address,
            deposit_collect_auth_address,
            withdraw_reduce_address,
            withdraw_swap_auth_address,
        }
    }

    /// The entry that a call addressed to `address` reaches: the first entry,
    /// in the contract's order, that has this address.
    pub open spec fn entry_at(&self, address: Word) -> Option<DexEntry> {
        if address == self.init_address {
            Some(DexEntry::Init)
        } else if address == self.deposit_address {
            Some(DexEntry::Deposit)
        } else if address == self.deposit_reduce_address {
            Some(DexEntry::DepositReduce)
        } else if address == self.deposit_collect_auth_address {
            Some(DexEntry::DepositCollectAuth)
        } else if address == self.withdraw_address {
            Some(DexEntry::Withdraw)
        } else if address == self.withdraw_reduce_address {
            Some(DexEntry::WithdrawReduce)
        } else if address == self.withdraw_swap_auth_address {
            Some(DexEntry::WithdrawSwapAuth)
        } else if address == self.swap_address {
            Some(DexEntry::Swap)
        } else if address == self.addliquidity_address {
            Some(DexEntry::AddLiquidity)
        } else if address == self.removeliquity_address {
            Some(DexEntry::RemoveLiquidity)
        } else {
            None
        }
    }

    /// The entry that a call addressed to `address` reaches.
    pub fn entry(&self, address: &Word) -> (r: Option<DexEntry>)
        ensures
            r == self.entry_at(*address),
    {
        if address.same(&self.init_address) {
            Some(DexEntry::Init)
        } else if address.same(&self.deposit_address) {
            Some(DexEntry::Deposit)
        } else if address.same(&self.deposit_reduce_address) {
            Some(DexEntry::DepositReduce)
        } else if address.same(&self.deposit_collect_auth_address) {
            Some(DexEntry::DepositCollectAuth)
        } else if address.same(&self.withdraw_address) {
            Some(DexEntry::Withdraw)
        } else if address.same(&self.withdraw_reduce_address) {
            Some(DexEntry::WithdrawReduce)
        } else if address.same(&self.withdraw_swap_auth_address) {
            Some(DexEntry::WithdrawSwapAuth)
        } else if address.same(&self.swap_address) {
            Some(DexEntry::Swap)
        } else if address.same(&self.addliquidity_address) {
            Some(DexEntry::AddLiquidity)
        } else if address.same(&self.removeliquity_address) {
            Some(DexEntry::RemoveLiquidity)
        } else {
            None
        }
    }

    /// Runs a call addressed to `entry` on the exchange deployed at `this`,
    /// whose snapshot is `snapshot`: refused where `entry` is no entry of the
    /// contract, another entry than the call is for, or an entry that reads
    /// an argument the contract does not hand it; else what that entry does.
    pub fn execute(
        &self,
        chain: &Chain,
        this: &Word,
        snapshot: &Chain,
        entry: &Word,
        call: &DexCall,
    ) -> (r: Option<Outcome>)
        ensures
            effect_of(r) == (if self.entry_at(*entry) == Some(call.entry_kind()) && covered(
                read_args(call.entry_kind()),
                supplied_args(call.entry_kind()),
            ) {
                call_effect(chain@, *this, snapshot.history(), *call)
            } else {
                None
            }),
    {
        let kind = match self.entry(entry) {
            Some(kind) => kind,
            None => return None,
        };
        if !covers(&read_arg_list(kind), &supplied_arg_list(kind)) {
            return None;
        }
        match call {
            DexCall::Init { token_0, token_1 } => {
                if kind != DexEntry::Init {
                    return None;
                }
                init(chain, this, token_0, token_1)
            },
            DexCall::Deposit { sender, amount, nonce, inbox_nonce, flag } => {
                if kind != DexEntry::Deposit {
                    return None;
                }
                deposit(chain, this, sender, amount, nonce, inbox_nonce, flag)
            },
            DexCall::DepositReduce { token } => {
                if kind != DexEntry::DepositReduce {
                    return None;
                }
                deposit_reduce(chain, this, snapshot, token)
            },
            DexCall::DepositCollectAuth => {
                if kind != DexEntry::DepositCollectAuth {
                    return None;
                }
                deposit_collect_auth(chain, this, snapshot)
            },
            DexCall::Withdraw { sender, amount, nonce, pool, flag } => {
                if kind != DexEntry::Withdraw {
                    return None;
                }
                withdraw(chain, this, sender, amount, nonce, pool, flag)
            },
            DexCall::WithdrawReduce { token } => {
                if kind != DexEntry::WithdrawReduce {
                    return None;
                }
                withdraw_reduce(chain, this, snapshot, token)
            },
            DexCall::WithdrawSwapAuth { token, nonce } => {
                if kind != DexEntry::WithdrawSwapAuth {
                    return None;
                }
                withdraw_swap_auth(chain, this, snapshot, token, nonce)
            },
            DexCall::Swap { sender, nonce, flag_0, flag_1, amount_0, amount_1 } => {
                if kind != DexEntry::Swap {
                    return None;
                }
                swap(chain, this, sender, nonce, flag_0, flag_1, amount_0, amount_1)
            },
            DexCall::AddLiquidity { sender, pool, nonce, amount_0, amount_1 } => {
                if kind != DexEntry::AddLiquidity {
                    return None;
                }
                add_liquidity(chain, this, sender, pool, nonce, amount_0, amount_1)
            },
            DexCall::RemoveLiquidity { sender, nonce, amount_0, amount_1 } => {
                if kind != DexEntry::RemoveLiquidity {
                    return None;
                }
                remove_liquidity(chain, this, sender, nonce, amount_0, amount_1)
            },
        }
    }
}

} // verus!
