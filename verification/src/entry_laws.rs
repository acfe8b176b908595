//! What each entry does, stated from its inputs: which storage slots it
//! reads, when it is accepted, what it writes and what it asks to have
//! approved.
use vstd::prelude::*;
use crate::word::{Word, Label, zero, hashed};
use crate::chain::{slot, Approval, SlotNode};
use crate::token;
use crate::token::{inbox_key, TokenCall};
use crate::dex;
use crate::dex::{DexCall, DexEntry};
use crate::token::{Token, TokenEntry};
use crate::dex::Dex;
use crate::args::covered;
use crate::laws::amount_of;

verus! {

/// Whether a word is a number.
pub open spec fn is_num(w: Word) -> bool {
    w is Num
}

/// The reduction of the liquidity queue, by the request's method. With
/// `pool` the pool's key, the reserve keys
/// `hash2to1(hash("reserve_liquidity"), hash2to1(pool, 0 or ones))`, the
/// requester's liquidity keys
/// `hash2to1(hash2to1(hash("reserve_liquidity"), user), hash2to1(pool, 0 or ones))`,
/// and the request's amounts, method and user read from
/// `hash2to1(item, 0 / ones / 2 / 3)`: the reduction is accepted exactly when
/// the queue pointer stands at `node.prev`, every value read is a number and
/// every sum and difference below fits. It then writes, in order, the first
/// reserve, the second reserve, the first reserve again with the
/// requester's first liquidity, the requester's second liquidity, and the
/// pointer moved to `node.item`:
/// - a swap ("swap_liquidity") adds the first amount to the first reserve,
///   takes the second from the second reserve and leaves the requester's
///   liquidity as it is;
/// - an addition ("add_liquidiy") adds both amounts to the reserves, and
///   writes the requester's first liquidity plus each amount;
/// - a removal under "remove_liquidiy" takes both amounts from the
///   reserves and adds them to the requester's liquidity;
/// - any other method leaves every value as it is.
pub proof fn liquidity_reduce_by_method(m: Map<(Word, Word), Word>, this: Word, node: SlotNode)
    ensures
        ({
            let e = dex::liquidity_reduce_effect(m, this, node);
            let item = node.item;
            let pool = slot(m, this, Word::Tag(Label::Pool));
            let tk0 = hashed(pool, Word::Num(0));
            let tk1 = hashed(pool, Word::Ones);
            let user = slot(m, this, hashed(item, Word::Num(3)));
            let rk0 = hashed(Word::Tag(Label::ReserveLiquidity), tk0);
            let rk1 = hashed(Word::Tag(Label::ReserveLiquidity), tk1);
            let uk0 = hashed(hashed(Word::Tag(Label::ReserveLiquidity), user), tk0);
            let uk1 = hashed(hashed(Word::Tag(Label::ReserveLiquidity), user), tk1);
            let r0w = slot(m, this, rk0);
            let r1w = slot(m, this, rk1);
            let u0w = slot(m, this, uk0);
            let u1w = slot(m, this, uk1);
            let a0w = slot(m, this, hashed(item, Word::Num(0)));
            let a1w = slot(m, this, hashed(item, Word::Ones));
            let method = slot(m, this, hashed(item, Word::Num(2)));
            let (r0, r1, u0, u1, a0, a1) = (
                amount_of(r0w),
                amount_of(r1w),
                amount_of(u0w),
                amount_of(u1w),
                amount_of(a0w),
                amount_of(a1w),
            );
            let max = u128::MAX as int;
            &&& (e is Some <==> (slot(m, this, Word::Tag(Label::LiquidityReduce)) == node.prev
                && is_num(r0w) && is_num(r1w) && is_num(u0w) && is_num(u1w) && is_num(a0w)
                && is_num(a1w) && r0 + a0 <= max && r1 + a1 <= max && a1 <= r1 && a0 <= r0
                && u0 + a0 <= max && u0 + a1 <= max && u1 + a1 <= max))
            &&& e is Some ==> {
                let d = e.unwrap().diffs;
                &&& d.len() == 5
                &&& e.unwrap().approval is None
                &&& d[0].0 == rk0 && d[1].0 == rk1 && d[2].0 == rk0 && d[3].0 == uk1
                &&& d[4] == (Word::Tag(Label::LiquidityReduce), item)
                &&& method == Word::Tag(Label::SwapLiquidity) ==> {
                    &&& d[0].1 == Word::Num((r0 + a0) as u128)
                    &&& d[1].1 == Word::Num((r1 - a1) as u128)
                    &&& d[2].1 == u0w
                    &&& d[3].1 == u1w
                }
                &&& method == Word::Tag(Label::AddLiquidiy) ==> {
                    &&& d[0].1 == Word::Num((r0 + a0) as u128)
                    &&& d[1].1 == Word::Num((r1 + a1) as u128)
                    &&& d[2].1 == Word::Num((u0 + a0) as u128)
                    &&& d[3].1 == Word::Num((u0 + a1) as u128)
                }
                &&& method == Word::Tag(Label::RemoveLiquidiy) ==> {
                    &&& d[0].1 == Word::Num((r0 - a0) as u128)
                    &&& d[1].1 == Word::Num((r1 - a1) as u128)
                    &&& d[2].1 == Word::Num((u0 + a0) as u128)
                    &&& d[3].1 == Word::Num((u1 + a1) as u128)
                }
                &&& (method != Word::Tag(Label::SwapLiquidity) && method != Word::Tag(
                    Label::AddLiquidiy,
                ) && method != Word::Tag(Label::RemoveLiquidiy)) ==> {
                    &&& d[0].1 == r0w
                    &&& d[1].1 == r1w
                    &&& d[2].1 == u0w
                    &&& d[3].1 == u1w
                }
            }
        }),
{
}

/// A deposit is accepted exactly when the token inbox it names (the one
/// `sender` filled for the exchange under `inbox_nonce`, in the token that
/// the pool lists under `flag`) holds exactly `amount`, and `amount` is not
/// zero. It then records under the inbox's key the amount, the sender, the
/// token and the inbox, queues the inbox, and asks `sender` to approve its
/// own address.
pub proof fn deposit_takes_exact_inbox(
    m: Map<(Word, Word), Word>,
    this: Word,
    sender: Word,
    amount: Word,
    nonce: Word,
    inbox_nonce: Word,
    flag: Word,
)
    ensures
        ({
            let e = dex::deposit_effect(m, this, sender, amount, nonce, inbox_nonce, flag);
            let key_token = hashed(slot(m, this, Word::Tag(Label::Pool)), flag);
            let token = slot(m, this, key_token);
            let inbox = inbox_key(sender, this, inbox_nonce);
            &&& (e is Some <==> (slot(m, token, inbox) == amount && amount != zero()))
            &&& e is Some ==> {
                let d = e.unwrap().diffs;
                &&& d.len() == 5
                &&& d[0] == (hashed(Word::Tag(Label::Inbox), key_token), inbox)
                &&& d[1] == (hashed(inbox, Word::Num(0)), amount)
                &&& d[2] == (hashed(inbox, Word::Ones), sender)
                &&& d[3] == (hashed(inbox, Word::Num(2)), token)
                &&& d[4] == (hashed(inbox, Word::Num(3)), inbox)
                &&& e.unwrap().approval == Some(
                    Approval { nonce, message: sender, signer: sender },
                )
            }
        }),
{
}

/// The writes that file a liquidity request of `sender` under `nonce`:
/// the queue set to the request's key, and under that key the two amounts,
/// the method and the sender as the request's user.
pub open spec fn files_request(
    d: Seq<(Word, Word)>,
    sender: Word,
    nonce: Word,
    amount_0: Word,
    amount_1: Word,
    method: Label,
) -> bool {
    let key = hashed(hashed(Word::Tag(Label::LiquidityInbox), sender), nonce);
    &&& d.len() == 5
    &&& d[0] == (Word::Tag(Label::LiquidityInbox), key)
    &&& d[1] == (hashed(key, Word::Num(0)), amount_0)
    &&& d[2] == (hashed(key, Word::Ones), amount_1)
    &&& d[3] == (hashed(key, Word::Num(2)), Word::Tag(method))
    &&& d[4] == (hashed(key, Word::Num(3)), sender)
}

/// The liquidity requests (swap, add, remove) file a request whose user is
/// its sender, with the call's amounts and its method, and ask the sender to
/// approve the request's key. A swap and a removal write nothing else; an
/// addition first debits the sender's balances of the pool's two tokens.
pub proof fn requests_record_sender(
    m: Map<(Word, Word), Word>,
    this: Word,
    sender: Word,
    nonce: Word,
    pool: Word,
    flag_0: Word,
    flag_1: Word,
    amount_0: Word,
    amount_1: Word,
)
    ensures
        ({
            let key = hashed(hashed(Word::Tag(Label::LiquidityInbox), sender), nonce);
            let approval = Some(Approval { nonce, message: key, signer: sender });
            &&& dex::swap_effect(m, this, sender, nonce, flag_0, flag_1, amount_0, amount_1) matches Some(e)
                ==> files_request(e.diffs, sender, nonce, amount_0, amount_1, Label::SwapLiquidity)
                && e.approval == approval
            &&& dex::remove_liquidity_effect(m, this, sender, nonce, amount_0, amount_1) matches Some(e)
                ==> files_request(e.diffs, sender, nonce, amount_0, amount_1, Label::RemoveLiquidity)
                && e.approval == approval
            &&& dex::add_liquidity_effect(m, this, sender, pool, nonce, amount_0, amount_1) matches Some(e)
                ==> files_request(e.diffs.skip(2), sender, nonce, amount_0, amount_1, Label::AddLiquidiy)
                && e.diffs.len() == 7 && e.approval == approval
        }),
{
    let key = hashed(hashed(Word::Tag(Label::LiquidityInbox), sender), nonce);
    if let Some(e) = dex::add_liquidity_effect(m, this, sender, pool, nonce, amount_0, amount_1) {
        assert(e.diffs.skip(2) =~= dex::request_diffs(key, amount_0, amount_1, Label::AddLiquidiy, sender));
    }
}

/// Who approves what: `init` and `transfer` ask the sender to approve its
/// own address, `collect` asks the receiver to approve its own address,
/// `deposit` asks the sender for its own address, and `withdraw` asks the
/// sender to approve `hash2to1(token, amount)` for the token it withdraws.
/// Each approval carries the call's nonce.
pub proof fn approvals_name_their_signer(
    m: Map<(Word, Word), Word>,
    this: Word,
    sender: Word,
    receiver: Word,
    amount: Word,
    nonce: Word,
    inbox_nonce: Word,
    pool: Word,
    flag: Word,
)
    ensures
        token::init_effect(m, this, sender, amount, nonce) matches Some(e) ==> e.approval == Some(
            Approval { nonce, message: sender, signer: sender },
        ),
        token::transfer_effect(m, this, sender, receiver, amount, nonce) matches Some(e)
            ==> e.approval == Some(Approval { nonce, message: sender, signer: sender }),
        token::collect_effect(m, this, sender, receiver, nonce, inbox_nonce) matches Some(e)
            ==> e.approval == Some(Approval { nonce, message: receiver, signer: receiver }),
        dex::deposit_effect(m, this, sender, amount, nonce, inbox_nonce, flag) matches Some(e)
            ==> e.approval == Some(Approval { nonce, message: sender, signer: sender }),
        dex::withdraw_effect(m, this, sender, amount, nonce, pool, flag) matches Some(e)
            ==> e.approval == Some(
            Approval {
                nonce,
                message: hashed(slot(m, this, hashed(pool, flag)), amount),
                signer: sender,
            },
        ),
{
}

/// A call dispatched to its entry does what that entry does when called
/// directly with the call's arguments in their roles.
pub proof fn dex_call_runs_entry(
    m: Map<(Word, Word), Word>,
    this: Word,
    snap: Seq<(Word, Word, Word)>,
    call: DexCall,
)
    ensures
        match call {
            DexCall::Init { token_0, token_1 } => dex::call_effect(m, this, snap, call)
                == dex::init_effect(m, this, token_0, token_1),
            DexCall::Deposit { sender, amount, nonce, inbox_nonce, flag } => dex::call_effect(
                m,
                this,
                snap,
                call,
            ) == dex::deposit_effect(m, this, sender, amount, nonce, inbox_nonce, flag),
            DexCall::DepositReduce { token } => dex::call_effect(m, this, snap, call) == (
            match crate::chain::last_change(snap, this, hashed(Word::Tag(Label::Inbox), token)) {
                Some(node) => dex::deposit_reduce_effect(m, this, node),
                None => None,
            }),
            DexCall::DepositCollectAuth => dex::call_effect(m, this, snap, call) == (
            match crate::chain::last_change(snap, this, Word::Tag(Label::Inbox)) {
                Some(node) => dex::deposit_collect_auth_effect(m, this, node),
                None => None,
            }),
            DexCall::Withdraw { sender, amount, nonce, pool, flag } => dex::call_effect(
                m,
                this,
                snap,
                call,
            ) == dex::withdraw_effect(m, this, sender, amount, nonce, pool, flag),
            DexCall::WithdrawReduce { token } => dex::call_effect(m, this, snap, call) == (
            match crate::chain::last_change(snap, this, hashed(Word::Tag(Label::Withdraw), token)) {
                Some(node) => dex::withdraw_reduce_effect(m, this, token, node),
                None => None,
            }),
            DexCall::WithdrawSwapAuth { token, nonce } => dex::call_effect(m, this, snap, call) == (
            match crate::chain::last_change(snap, this, hashed(Word::Tag(Label::Withdraw), token)) {
                Some(node) => dex::withdraw_swap_auth_effect(m, this, token, nonce, node),
                None => None,
            }),
            DexCall::Swap { sender, nonce, flag_0, flag_1, amount_0, amount_1 } => dex::call_effect(
                m,
                this,
                snap,
                call,
            ) == dex::swap_effect(m, this, sender, nonce, flag_0, flag_1, amount_0, amount_1),
            DexCall::AddLiquidity { sender, pool, nonce, amount_0, amount_1 } => dex::call_effect(
                m,
                this,
                snap,
                call,
            ) == dex::add_liquidity_effect(m, this, sender, pool, nonce, amount_0, amount_1),
            DexCall::RemoveLiquidity { sender, nonce, amount_0, amount_1 } => dex::call_effect(
                m,
                this,
                snap,
                call,
            ) == dex::remove_liquidity_effect(m, this, sender, nonce, amount_0, amount_1),
        },
{
}

/// Whether a call is accepted and writes back, with no approval, the value
/// that `key` holds.
pub open spec fn reads_back(e: Option<crate::chain::Effect>, m: Map<(Word, Word), Word>, this: Word, key: Word) -> bool {
    &&& e is Some
    &&& e.unwrap().diffs == seq![(key, slot(m, this, key))]
    &&& e.unwrap().approval is None
}

/// A call dispatched to a token entry does what that entry does when called
/// directly with the call's arguments in their roles; the reading entries
/// (`balance_of` the balance of `address`, `name` the slot under the hash of
/// the hash of "name", `total_supply`, `decimal`) write back what they read.
pub proof fn token_call_runs_entry(m: Map<(Word, Word), Word>, this: Word, call: TokenCall)
    ensures
        match call {
            TokenCall::Init { sender, amount, nonce } => token::call_effect(m, this, call)
                == token::init_effect(m, this, sender, amount, nonce),
            TokenCall::Transfer { sender, receiver, amount, nonce } => token::call_effect(
                m,
                this,
                call,
            ) == token::transfer_effect(m, this, sender, receiver, amount, nonce),
            TokenCall::Collect { sender, receiver, nonce, inbox_nonce } => token::call_effect(
                m,
                this,
                call,
            ) == token::collect_effect(m, this, sender, receiver, nonce, inbox_nonce),
            TokenCall::BalanceOf { address } => reads_back(
                token::call_effect(m, this, call),
                m,
                this,
                hashed(Word::Tag(Label::Balance), address),
            ),
            TokenCall::Name => reads_back(
                token::call_effect(m, this, call),
                m,
                this,
                Word::Digest(Box::new(Word::Tag(Label::Name))),
            ),
            TokenCall::TotalSupply => reads_back(
                token::call_effect(m, this, call),
                m,
                this,
                Word::Tag(Label::TotalSupply),
            ),
            TokenCall::Decimal => reads_back(
                token::call_effect(m, this, call),
                m,
                this,
                Word::Tag(Label::Decimal),
            ),
        },
{
}

/// `init` of the token is accepted exactly while the total supply is zero;
/// it credits `amount` to the sender, sets the total supply to `amount`, the
/// decimals to 9 and the name to "Test".
pub proof fn token_init_law(m: Map<(Word, Word), Word>, this: Word, sender: Word, amount: Word, nonce: Word)
    ensures
        ({
            let e = token::init_effect(m, this, sender, amount, nonce);
            &&& (e is Some <==> slot(m, this, Word::Tag(Label::TotalSupply)) == zero())
            &&& e is Some ==> e.unwrap().diffs == seq![
                (hashed(Word::Tag(Label::Balance), sender), amount),
                (Word::Tag(Label::TotalSupply), amount),
                (Word::Tag(Label::Decimal), Word::Num(9)),
                (Word::Tag(Label::Name), Word::Text(Label::Test)),
            ]
        }),
{
}

/// `transfer` is accepted exactly when the sender's balance and the amount
/// are numbers and the balance covers the amount; it lowers the sender's
/// balance by the amount and puts the amount in the inbox for the receiver
/// under the nonce.
pub proof fn token_transfer_law(
    m: Map<(Word, Word), Word>,
    this: Word,
    sender: Word,
    receiver: Word,
    amount: Word,
    nonce: Word,
)
    ensures
        ({
            let e = token::transfer_effect(m, this, sender, receiver, amount, nonce);
            let bk = hashed(Word::Tag(Label::Balance), sender);
            let b = slot(m, this, bk);
            &&& (e is Some <==> (is_num(b) && is_num(amount) && amount_of(amount) <= amount_of(b)))
            &&& e is Some ==> e.unwrap().diffs == seq![
                (bk, Word::Num((amount_of(b) - amount_of(amount)) as u128)),
                (hashed(hashed(Word::Tag(Label::Inbox), sender), hashed(receiver, nonce)), amount),
            ]
        }),
{
}

/// `collect` is accepted exactly when the receiver's balance and what the
/// inbox from `sender` under `inbox_nonce` holds are numbers whose sum fits;
/// it raises the receiver's balance by that amount and empties the inbox.
pub proof fn token_collect_law(
    m: Map<(Word, Word), Word>,
    this: Word,
    sender: Word,
    receiver: Word,
    nonce: Word,
    inbox_nonce: Word,
)
    ensures
        ({
            let e = token::collect_effect(m, this, sender, receiver, nonce, inbox_nonce);
            let bk = hashed(Word::Tag(Label::Balance), receiver);
            let ik = hashed(hashed(Word::Tag(Label::Inbox), sender), hashed(receiver, inbox_nonce));
            let b = slot(m, this, bk);
            let v = slot(m, this, ik);
            &&& (e is Some <==> (is_num(b) && is_num(v) && amount_of(b) + amount_of(v)
                <= u128::MAX))
            &&& e is Some ==> e.unwrap().diffs == seq![
                (bk, Word::Num((amount_of(b) + amount_of(v)) as u128)),
                (ik, zero()),
            ]
        }),
{
}

/// `init` of the exchange is accepted exactly when the two tokens differ and
/// no pool is set; it sets the pool to
/// `hash2to1(hash2to1(hash("pool"), token_0), token_1)` and lists the tokens
/// under `hash2to1(pool, 0)` and `hash2to1(pool, ones)`.
pub proof fn dex_init_law(m: Map<(Word, Word), Word>, this: Word, token_0: Word, token_1: Word)
    ensures
        ({
            let e = dex::init_effect(m, this, token_0, token_1);
            let pool = hashed(hashed(Word::Tag(Label::Pool), token_0), token_1);
            &&& (e is Some <==> (token_0 != token_1 && slot(m, this, Word::Tag(Label::Pool))
                == zero()))
            &&& e is Some ==> e.unwrap().diffs == seq![
                (Word::Tag(Label::Pool), pool),
                (hashed(pool, Word::Num(0)), token_0),
                (hashed(pool, Word::Ones), token_1),
            ] && e.unwrap().approval is None
        }),
{
}

/// `withdraw` is accepted exactly when the sender's balance of the token
/// listed under `hash2to1(pool, flag)` and the amount are numbers and the
/// balance covers the amount; it lowers that balance by the amount, queues
/// the request and records its sender, token, amount and nonce.
pub proof fn withdraw_law(
    m: Map<(Word, Word), Word>,
    this: Word,
    sender: Word,
    amount: Word,
    nonce: Word,
    pool: Word,
    flag: Word,
)
    ensures
        ({
            let e = dex::withdraw_effect(m, this, sender, amount, nonce, pool, flag);
            let key_token = hashed(pool, flag);
            let token = slot(m, this, key_token);
            let bk = hashed(hashed(Word::Tag(Label::Balance), sender), token);
            let b = slot(m, this, bk);
            let request = hashed(
                hashed(hashed(Word::Tag(Label::Withdraw), sender), hashed(token, amount)),
                nonce,
            );
            &&& (e is Some <==> (is_num(b) && is_num(amount) && amount_of(amount) <= amount_of(b)))
            &&& e is Some ==> e.unwrap().diffs == seq![
                (bk, Word::Num((amount_of(b) - amount_of(amount)) as u128)),
                (hashed(Word::Tag(Label::Withdraw), key_token), request),
                (hashed(request, Word::Num(0)), sender),
                (hashed(request, Word::Ones), token),
                (hashed(request, Word::Num(2)), amount),
                (hashed(request, Word::Num(3)), nonce),
            ]
        }),
{
}

/// `deposit_reduce` on the change `node` is accepted exactly when the token
/// recorded for the deposit `node.item` holds nothing under the recorded
/// inbox (the exchange collected it), the token's deposit pointer stands at
/// `node.prev`, and the depositor's balance plus the recorded amount are
/// numbers whose sum fits; it moves the pointer to `node.item` and raises
/// the depositor's balance of that token by the amount.
pub proof fn deposit_reduce_law(m: Map<(Word, Word), Word>, this: Word, node: SlotNode)
    ensures
        ({
            let e = dex::deposit_reduce_effect(m, this, node);
            let item = node.item;
            let amount = slot(m, this, hashed(item, Word::Num(0)));
            let owner = slot(m, this, hashed(item, Word::Ones));
            let token = slot(m, this, hashed(item, Word::Num(2)));
            let inbox = slot(m, this, hashed(item, Word::Num(3)));
            let bk = hashed(hashed(Word::Tag(Label::Balance), owner), token);
            let pk = hashed(Word::Tag(Label::Deposit), token);
            let b = slot(m, this, bk);
            &&& (e is Some <==> (slot(m, token, inbox) == zero() && slot(m, this, pk) == node.prev
                && is_num(b) && is_num(amount) && amount_of(b) + amount_of(amount) <= u128::MAX))
            &&& e is Some ==> e.unwrap().diffs == seq![
                (pk, item),
                (bk, Word::Num((amount_of(b) + amount_of(amount)) as u128)),
            ]
        }),
{
}

/// `deposit_collect_auth` on the change `node` is accepted exactly when the
/// token recorded under `hash2to1(node.item, 2)` holds nothing under
/// `node.prev` and something under `node.item`, and its deposit pointer
/// stands at `node.prev`; it sets the pointer to what the token holds under
/// `node.item`.
pub proof fn deposit_collect_auth_law(m: Map<(Word, Word), Word>, this: Word, node: SlotNode)
    ensures
        ({
            let e = dex::deposit_collect_auth_effect(m, this, node);
            let token = slot(m, this, hashed(node.item, Word::Num(2)));
            let pk = hashed(Word::Tag(Label::Deposit), token);
            &&& (e is Some <==> (slot(m, token, node.prev) == zero() && slot(m, token, node.item)
                != zero() && slot(m, this, pk) == node.prev))
            &&& e is Some ==> e.unwrap().diffs == seq![(pk, slot(m, token, node.item))]
        }),
{
}

/// `withdraw_reduce` on the change `node` of the withdrawal queue of
/// `token` is accepted exactly when its pointer stands at `node.prev`; it
/// moves the pointer to `node.item` and marks that item with ones.
/// `withdraw_swap_auth` needs the same pointer and a zero `node.item`, and
/// queues the inbox that the exchange fills for the receiver recorded under
/// `hash2to1(node.item, 0)` under `nonce`.
pub proof fn withdraw_queue_laws(m: Map<(Word, Word), Word>, this: Word, token: Word, nonce: Word, node: SlotNode)
    ensures
        ({
            let pk = hashed(Word::Tag(Label::WithdrawReduce), token);
            let r = dex::withdraw_reduce_effect(m, this, token, node);
            let a = dex::withdraw_swap_auth_effect(m, this, token, nonce, node);
            let receiver = slot(m, this, hashed(node.item, Word::Num(0)));
            &&& (r is Some <==> slot(m, this, pk) == node.prev)
            &&& r is Some ==> r.unwrap().diffs == seq![(pk, node.item), (node.item, Word::Ones)]
            &&& (a is Some <==> (slot(m, this, pk) == node.prev && node.item == zero()))
            &&& a is Some ==> a.unwrap().diffs == seq![
                (
                    hashed(Word::Tag(Label::Withdraw), token),
                    hashed(hashed(Word::Tag(Label::Inbox), this), hashed(receiver, nonce)),
                ),
            ]
        }),
{
}

/// When the liquidity requests are accepted: a swap needs equal amounts,
/// the sender's balance of the token under `hash2to1(hash("pool"), flag_0)`
/// covering the first and the reserve under
/// `hash2to1(hash("reserve"), token under flag_1)` covering the second; an
/// addition needs the sender's balances of the tokens under
/// `hash2to1(pool, 0)` and `hash2to1(pool, ones)` to cover the amounts, and
/// lowers them by the amounts; a removal needs equal amounts and the
/// sender's liquidity in the tokens under `hash2to1(hash("pool"), 0 / ones)`
/// to cover them. Every amount and value compared is a number.
pub proof fn request_acceptance_laws(
    m: Map<(Word, Word), Word>,
    this: Word,
    sender: Word,
    nonce: Word,
    pool: Word,
    flag_0: Word,
    flag_1: Word,
    amount_0: Word,
    amount_1: Word,
)
    ensures
        ({
            let covers = |have: Word, need: Word| is_num(have) && is_num(need) && amount_of(need)
                <= amount_of(have);
            let bal = |token: Word| slot(
                m,
                this,
                hashed(hashed(Word::Tag(Label::Balance), sender), token),
            );
            let liq = |token: Word| slot(
                m,
                this,
                hashed(hashed(Word::Tag(Label::ReserveLiquidity), sender), token),
            );
            let s0 = slot(m, this, hashed(Word::Tag(Label::Pool), flag_0));
            let s1 = slot(m, this, hashed(Word::Tag(Label::Pool), flag_1));
            let p0 = slot(m, this, hashed(pool, Word::Num(0)));
            let p1 = slot(m, this, hashed(pool, Word::Ones));
            let q0 = slot(m, this, hashed(Word::Tag(Label::Pool), Word::Num(0)));
            let q1 = slot(m, this, hashed(Word::Tag(Label::Pool), Word::Ones));
            let add = dex::add_liquidity_effect(m, this, sender, pool, nonce, amount_0, amount_1);
            &&& (dex::swap_effect(m, this, sender, nonce, flag_0, flag_1, amount_0, amount_1) is Some
                <==> (amount_0 == amount_1 && covers(bal(s0), amount_0) && covers(
                slot(m, this, hashed(Word::Tag(Label::Reserve), s1)),
                amount_1,
            )))
            &&& (add is Some <==> (covers(bal(p0), amount_0) && covers(bal(p1), amount_1)))
            &&& add is Some ==> add.unwrap().diffs.take(2) == seq![
                (
                    hashed(hashed(Word::Tag(Label::Balance), sender), p0),
                    Word::Num((amount_of(bal(p0)) - amount_of(amount_0)) as u128),
                ),
                (
                    hashed(hashed(Word::Tag(Label::Balance), sender), p1),
                    Word::Num((amount_of(bal(p1)) - amount_of(amount_1)) as u128),
                ),
            ]
            &&& (dex::remove_liquidity_effect(m, this, sender, nonce, amount_0, amount_1) is Some
                <==> (amount_0 == amount_1 && covers(liq(q0), amount_0) && covers(
                liq(q1),
                amount_1,
            )))
        }),
{
    if let Some(e) = dex::add_liquidity_effect(m, this, sender, pool, nonce, amount_0, amount_1) {
        assert(e.diffs.take(2) =~= seq![e.diffs[0], e.diffs[1]]);
    }
}

/// Which entries get every argument their circuit reads: all token entries
/// but `balance_of`, and the exchange's `init`, `deposit`,
/// `deposit_reduce`, `deposit_collect_auth`, `withdraw` and
/// `withdraw_reduce`; not `withdraw_swap_auth`, `swap`, `add_liquidity` or
/// `remove_liquidity`.
pub proof fn entries_get_their_arguments(t: TokenEntry, d: DexEntry)
    ensures
        covered(token::read_args(t), token::supplied_args(t)) <==> t != TokenEntry::BalanceOf,
        covered(dex::read_args(d), dex::supplied_args(d)) <==> (d == DexEntry::Init || d
            == DexEntry::Deposit || d == DexEntry::DepositReduce || d == DexEntry::DepositCollectAuth
            || d == DexEntry::Withdraw || d == DexEntry::WithdrawReduce),
{
    match t {
        TokenEntry::BalanceOf => {
            assert(!token::supplied_args(t).contains(token::read_args(t)[0]));
        },
        TokenEntry::Init => {
            let s = token::supplied_args(t);
            assert(s[0] == token::read_args(t)[0] && s[1] == token::read_args(t)[1] && s[2] == token::read_args(t)[2] && s[3] == token::read_args(t)[3]);
        },
        TokenEntry::Transfer => {
            let s = token::supplied_args(t);
            assert(s[0] == token::read_args(t)[0]);
            assert(s[1] == token::read_args(t)[1]);
            assert(s[2] == token::read_args(t)[2]);
            assert(s[3] == token::read_args(t)[3]);
            assert(s[4] == token::read_args(t)[4]);
        },
        TokenEntry::Collect => {
            let s = token::supplied_args(t);
            let r = token::read_args(t);
            assert(s[0] == r[0] && s[2] == r[1] && s[1] == r[2] && s[3] == r[3] && s[4] == r[4]);
        },
        _ => {},
    }
    let s = dex::supplied_args(d);
    let r = dex::read_args(d);
    match d {
        DexEntry::Init => {
            assert(s[0] == r[0] && s[1] == r[1]);
        },
        DexEntry::Deposit => {
            assert(s[0] == r[0] && s[1] == r[1] && s[2] == r[2] && s[3] == r[3] && s[4] == r[4]
                && s[6] == r[5]);
        },
        DexEntry::DepositReduce => {
            assert(s[0] == r[0]);
        },
        DexEntry::Withdraw => {
            assert(s[0] == r[0] && s[1] == r[1] && s[2] == r[2] && s[3] == r[3] && s[4] == r[4]
                && s[5] == r[5]);
        },
        DexEntry::WithdrawReduce => {
            assert(s[0] == r[0]);
        },
        DexEntry::WithdrawSwapAuth => {
            assert(!s.contains(r[0]));
        },
        DexEntry::Swap => {
            assert(!s.contains(r[3]));
        },
        DexEntry::AddLiquidity => {
            assert(!s.contains(r[2]));
        },
        DexEntry::RemoveLiquidity => {
            assert(!s.contains(r[0]));
        },
        _ => {},
    }
}

/// Where the token's entry addresses are distinct, a call sent to an
/// entry's address reaches that entry.
pub proof fn token_entries_by_address(t: Token)
    requires
        seq![
            t.init_address,
            t.transfer_address,
            t.collect_address,
            t.name_address,
            t.total_supply_address,
            t.decimal_address,
            t.balance_of_address,
        ].no_duplicates(),
    ensures
        t.entry_at(t.init_address) == Some(TokenEntry::Init),
        t.entry_at(t.transfer_address) == Some(TokenEntry::Transfer),
        t.entry_at(t.collect_address) == Some(TokenEntry::Collect),
        t.entry_at(t.name_address) == Some(TokenEntry::Name),
        t.entry_at(t.total_supply_address) == Some(TokenEntry::TotalSupply),
        t.entry_at(t.decimal_address) == Some(TokenEntry::Decimal),
        t.entry_at(t.balance_of_address) == Some(TokenEntry::BalanceOf),
{
    let a = seq![
        t.init_address,
        t.transfer_address,
        t.collect_address,
        t.name_address,
        t.total_supply_address,
        t.decimal_address,
        t.balance_of_address,
    ];
    assert forall|i: int, j: int| 0 <= i < j < 7 implies a[i] != a[j] by {}
}

/// Where the exchange's entry addresses are distinct, a call sent to an
/// entry's address reaches that entry.
pub proof fn dex_entries_by_address(d: Dex)
    requires
        seq![
            d.init_address,
            d.deposit_address,
            d.deposit_reduce_address,
            d.deposit_collect_auth_address,
            d.withdraw_address,
            d.withdraw_reduce_address,
            d.withdraw_swap_auth_address,
            d.swap_address,
            d.addliquidity_address,
            d.removeliquity_address,
        ].no_duplicates(),
    ensures
        d.entry_at(d.init_address) == Some(DexEntry::Init),
        d.entry_at(d.deposit_address) == Some(DexEntry::Deposit),
        d.entry_at(d.deposit_reduce_address) == Some(DexEntry::DepositReduce),
        d.entry_at(d.deposit_collect_auth_address) == Some(DexEntry::DepositCollectAuth),
        d.entry_at(d.withdraw_address) == Some(DexEntry::Withdraw),
        d.entry_at(d.withdraw_reduce_address) == Some(DexEntry::WithdrawReduce),
        d.entry_at(d.withdraw_swap_auth_address) == Some(DexEntry::WithdrawSwapAuth),
        d.entry_at(d.swap_address) == Some(DexEntry::Swap),
        d.entry_at(d.addliquidity_address) == Some(DexEntry::AddLiquidity),
        d.entry_at(d.removeliquity_address) == Some(DexEntry::RemoveLiquidity),
{
    let a = seq![
        d.init_address,
        d.deposit_address,
        d.deposit_reduce_address,
        d.deposit_collect_auth_address,
        d.withdraw_address,
        d.withdraw_reduce_address,
        d.withdraw_swap_auth_address,
        d.swap_address,
        d.addliquidity_address,
        d.removeliquity_address,
    ];
    assert forall|i: int, j: int| 0 <= i < j < 10 implies a[i] != a[j] by {}
}

} // verus!
