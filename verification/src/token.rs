//! The token contract: a fungible token whose transfers go through an inbox
//! that the receiver collects from.
//!
//! Each entry reads the token's own storage (the contract at `this`) and
//! either is refused, where a constraint of the entry fails, or produces the
//! writes it makes to that storage and the approval it asks for.
use vstd::prelude::*;
use crate::word::{Word, Label, zero, hashed, word_sum, word_difference, hash_pair, add_words, sub_words};
use crate::chain::{Chain, Approval, Outcome, Effect, effect_of, slot, zero_word};
use crate::args::{Arg, covered, covers, arg_list};

verus! {

/// The key of `owner`'s balance: `hash2to1(hash("balance"), owner)`.
pub open spec fn balance_key(owner: Word) -> Word {
    hashed(Word::Tag(Label::Balance), owner)
}

/// The key of the inbox that `sender` fills for `receiver` under `nonce`.
pub open spec fn inbox_key(sender: Word, receiver: Word, nonce: Word) -> Word {
    hashed(hashed(Word::Tag(Label::Inbox), sender), hashed(receiver, nonce))
}

/// The approval of an entry signed by `signer` that carries its own address.
pub open spec fn signed_by(nonce: Word, signer: Word) -> Option<Approval> {
    Some(Approval { nonce, message: signer, signer })
}

/// `init`: refused once the total supply is non-zero; else credits `amount`
/// to `sender`, sets the total supply to it, the decimals to 9 and the name.
pub open spec fn init_effect(
    m: Map<(Word, Word), Word>,
    this: Word,
    sender: Word,
    amount: Word,
    nonce: Word,
) -> Option<Effect> {
    if slot(m, this, Word::Tag(Label::TotalSupply)) == zero() {
        Some(
            Effect {
                diffs: seq![
                    (balance_key(sender), amount),
                    (Word::Tag(Label::TotalSupply), amount),
                    (Word::Tag(Label::Decimal), Word::Num(9)),
                    (Word::Tag(Label::Name), Word::Text(Label::Test)),
                ],
                approval: signed_by(nonce, sender),
            },
        )
    } else {
        None
    }
}

/// `transfer`: refused unless `sender`'s balance and `amount` are numbers and
/// the balance covers the amount; else debits the sender and puts `amount`
/// in the inbox for `receiver` under `nonce`.
pub open spec fn transfer_effect(
    m: Map<(Word, Word), Word>,
    this: Word,
    sender: Word,
    receiver: Word,
    amount: Word,
    nonce: Word,
) -> Option<Effect> {
    match word_difference(slot(m, this, balance_key(sender)), amount) {
        Some(rest) => Some(
            Effect {
                diffs: seq![
                    (balance_key(sender), rest),
                    (inbox_key(sender, receiver, nonce), amount),
                ],
                approval: signed_by(nonce, sender),
            },
        ),
        None => None,
    }
}

/// `collect`: refused unless the receiver's balance plus what the inbox holds
/// is a sum of numbers that fits; else credits that sum and empties the inbox.
pub open spec fn collect_effect(
    m: Map<(Word, Word), Word>,
    this: Word,
    sender: Word,
    receiver: Word,
    nonce: Word,
    inbox_nonce: Word,
) -> Option<Effect> {
    let ik = inbox_key(sender, receiver, inbox_nonce);
    match word_sum(slot(m, this, balance_key(receiver)), slot(m, this, ik)) {
        Some(total) => Some(
            Effect {
                diffs: seq![(balance_key(receiver), total), (ik, zero())],
                approval: signed_by(nonce, receiver),
            },
        ),
        None => None,
    }
}

/// A reading entry: writes the value it reads back to its key.
pub open spec fn read_back_effect(m: Map<(Word, Word), Word>, this: Word, key: Word) -> Effect {
    Effect { diffs: seq![(key, slot(m, this, key))], approval: None }
}

/// The key that `name` reads: the hash of the hash of "name".
pub open spec fn name_read_key() -> Word {
    Word::Digest(Box::new(Word::Tag(Label::Name)))
}

/// Entry `init`.
pub fn init(chain: &Chain, this: &Word, sender: &Word, amount: &Word, nonce: &Word) -> (r: Option<
    Outcome,
>)
    ensures
        effect_of(r) == init_effect(chain@, *this, *sender, *amount, *nonce),
{
    let total_supply = chain.read(this, &Word::Tag(Label::TotalSupply));
    if !total_supply.is_zero() {
        return None;
    }
    let mut diffs: Vec<(Word, Word)> = Vec::new();
    diffs.push((hash_pair(Word::Tag(Label::Balance), sender.copy()), amount.copy()));
    diffs.push((Word::Tag(Label::TotalSupply), amount.copy()));
    diffs.push((Word::Tag(Label::Decimal), Word::Num(9)));
    diffs.push((Word::Tag(Label::Name), Word::Text(Label::Test)));
    let r = Outcome {
        diffs,
        approval: Some(Approval { nonce: nonce.copy(), message: sender.copy(), signer: sender.copy() }),
    };
    assert(r@.diffs =~= init_effect(chain@, *this, *sender, *amount, *nonce).unwrap().diffs);
    Some(r)
}

/// Entry `transfer`.
pub fn transfer(
    chain: &Chain,
    this: &Word,
    sender: &Word,
    receiver: &Word,
    amount: &Word,
    nonce: &Word,
) -> (r: Option<Outcome>)
    ensures
        effect_of(r) == transfer_effect(chain@, *this, *sender, *receiver, *amount, *nonce),
{
    let bk = hash_pair(Word::Tag(Label::Balance), sender.copy());
    let balance = chain.read(this, &bk);
    let rest = match sub_words(&balance, amount) {
        Some(rest) => rest,
        None => return None,
    };
    let ik = hash_pair(
        hash_pair(Word::Tag(Label::Inbox), sender.copy()),
        hash_pair(receiver.copy(), nonce.copy()),
    );
    let mut diffs: Vec<(Word, Word)> = Vec::new();
    diffs.push((bk, rest));
    diffs.push((ik, amount.copy()));
    let r = Outcome {
        diffs,
        approval: Some(Approval { nonce: nonce.copy(), message: sender.copy(), signer: sender.copy() }),
    };
    assert(r@.diffs =~= transfer_effect(
        chain@,
        *this,
        *sender,
        *receiver,
        *amount,
        *nonce,
    ).unwrap().diffs);
    Some(r)
}

/// Entry `collect`: `receiver` collects what `sender` put in its inbox under
/// `inbox_nonce`.
pub fn collect(
    chain: &Chain,
    this: &Word,
    sender: &Word,
    receiver: &Word,
    nonce: &Word,
    inbox_nonce: &Word,
) -> (r: Option<Outcome>)
    ensures
        effect_of(r) == collect_effect(chain@, *this, *sender, *receiver, *nonce, *inbox_nonce),
{
    let ik = hash_pair(
        hash_pair(Word::Tag(Label::Inbox), sender.copy()),
        hash_pair(receiver.copy(), inbox_nonce.copy()),
    );
    let bk = hash_pair(Word::Tag(Label::Balance), receiver.copy());
    let balance = chain.read(this, &bk);
    let amount = chain.read(this, &ik);
    let total = match add_words(&balance, &amount) {
        Some(total) => total,
        None => return None,
    };
    let mut diffs: Vec<(Word, Word)> = Vec::new();
    diffs.push((bk, total));
    diffs.push((ik, zero_word()));
    let r = Outcome {
        diffs,
        approval: Some(
            Approval { nonce: nonce.copy(), message: receiver.copy(), signer: receiver.copy() },
        ),
    };
    assert(r@.diffs =~= collect_effect(
        chain@,
        *this,
        *sender,
        *receiver,
        *nonce,
        *inbox_nonce,
    ).unwrap().diffs);
    Some(r)
}

/// Writes back what `key` holds.
fn read_back(chain: &Chain, this: &Word, key: Word) -> (r: Outcome)
    ensures
        r@ == read_back_effect(chain@, *this, key),
{
    let value = chain.read(this, &key);
    let mut diffs: Vec<(Word, Word)> = Vec::new();
    diffs.push((key, value));
    let r = Outcome { diffs, approval: None };
    assert(r@.diffs =~= read_back_effect(chain@, *this, key).diffs);
    r
}

/// Entry `name`: reads the slot under the hash of the hash of "name".
pub fn name(chain: &Chain, this: &Word) -> (r: Outcome)
    ensures
        r@ == read_back_effect(chain@, *this, name_read_key()),
{
    read_back(chain, this, Word::Digest(Box::new(Word::Tag(Label::Name))))
}

/// Entry `total_supply`.
pub fn total_supply(chain: &Chain, this: &Word) -> (r: Outcome)
    ensures
        r@ == read_back_effect(chain@, *this, Word::Tag(Label::TotalSupply)),
{
    read_back(chain, this, Word::Tag(Label::TotalSupply))
}

/// Entry `decimal`.
pub fn decimal(chain: &Chain, this: &Word) -> (r: Outcome)
    ensures
        r@ == read_back_effect(chain@, *this, Word::Tag(Label::Decimal)),
{
    read_back(chain, this, Word::Tag(Label::Decimal))
}

/// Entry `balance_of`.
pub fn balance_of(chain: &Chain, this: &Word, address: &Word) -> (r: Outcome)
    ensures
        r@ == read_back_effect(chain@, *this, balance_key(*address)),
{
    read_back(chain, this, hash_pair(Word::Tag(Label::Balance), address.copy()))
}

/// The entries of the token contract, in the order the contract lists them.
#[derive(PartialEq, Eq, Structural, Clone, Copy, Debug)]
pub enum TokenEntry {
    Init,
    Transfer,
    Collect,
    Name,
    TotalSupply,
    Decimal,
    BalanceOf,
}

/// A call of an entry of the token contract, with its arguments. The sender
/// of an approved entry is the address of the key that signs the approval.
pub enum TokenCall {
    Init { sender: Word, amount: Word, nonce: Word },
    Transfer { sender: Word, receiver: Word, amount: Word, nonce: Word },
    Collect { sender: Word, receiver: Word, nonce: Word, inbox_nonce: Word },
    Name,
    TotalSupply,
    Decimal,
    BalanceOf { address: Word },
}

impl TokenCall {
    /// The entry that the call is for.
    pub open spec fn entry_kind(&self) -> TokenEntry {
        match self {
            TokenCall::Init { .. } => TokenEntry::Init,
            TokenCall::Transfer { .. } => TokenEntry::Transfer,
            TokenCall::Collect { .. } => TokenEntry::Collect,
            TokenCall::Name => TokenEntry::Name,
            TokenCall::TotalSupply => TokenEntry::TotalSupply,
            TokenCall::Decimal => TokenEntry::Decimal,
            TokenCall::BalanceOf { .. } => TokenEntry::BalanceOf,
        }
    }
}

/// The arguments that the contract hands to an entry.
pub open spec fn supplied_args(kind: TokenEntry) -> Seq<Arg> {
    match kind {
        TokenEntry::Init => seq![Arg::Sender, Arg::Proof, Arg::Amount, Arg::Nonce],
        TokenEntry::Transfer => seq![Arg::Sender, Arg::Proof, Arg::Receiver, Arg::Amount, Arg::Nonce],
        TokenEntry::Collect => seq![
            Arg::Sender,
            Arg::Proof,
            Arg::Receiver,
            Arg::Nonce,
            Arg::InboxNonce,
        ],
        _ => seq![],
    }
}

/// The arguments that an entry's circuit reads.
pub open spec fn read_args(kind: TokenEntry) -> Seq<Arg> {
    match kind {
        TokenEntry::Init => seq![Arg::Sender, Arg::Proof, Arg::Amount, Arg::Nonce],
        TokenEntry::Transfer => seq![Arg::Sender, Arg::Proof, Arg::Receiver, Arg::Amount, Arg::Nonce],
        TokenEntry::Collect => seq![
            Arg::Sender,
            Arg::Receiver,
            Arg::Proof,
            Arg::Nonce,
            Arg::InboxNonce,
        ],
        TokenEntry::BalanceOf => seq![Arg::Address],
        _ => seq![],
    }
}

/// The arguments that the contract hands to an entry.
pub fn supplied_arg_list(kind: TokenEntry) -> (r: Vec<Arg>)
    ensures
        r@ == supplied_args(kind),
{
    match kind {
        TokenEntry::Init => arg_list(&[Arg::Sender, Arg::Proof, Arg::Amount, Arg::Nonce]),
        TokenEntry::Transfer => arg_list(
            &[Arg::Sender, Arg::Proof, Arg::Receiver, Arg::Amount, Arg::Nonce],
        ),
        TokenEntry::Collect => arg_list(
            &[Arg::Sender, Arg::Proof, Arg::Receiver, Arg::Nonce, Arg::InboxNonce],
        ),
        _ => Vec::new(),
    }
}

/// The arguments that an entry's circuit reads.
pub fn read_arg_list(kind: TokenEntry) -> (r: Vec<Arg>)
    ensures
        r@ == read_args(kind),
{
    match kind {
        TokenEntry::Init => arg_list(&[Arg::Sender, Arg::Proof, Arg::Amount, Arg::Nonce]),
        TokenEntry::Transfer => arg_list(
            &[Arg::Sender, Arg::Proof, Arg::Receiver, Arg::Amount, Arg::Nonce],
        ),
        TokenEntry::Collect => arg_list(
            &[Arg::Sender, Arg::Receiver, Arg::Proof, Arg::Nonce, Arg::InboxNonce],
        ),
        TokenEntry::BalanceOf => arg_list(&[Arg::Address]),
        _ => Vec::new(),
    }
}

/// What a call of the token contract at `this` does on storage `m`.
pub open spec fn call_effect(m: Map<(Word, Word), Word>, this: Word, call: TokenCall) -> Option<
    Effect,
> {
    match call {
        TokenCall::Init { sender, amount, nonce } => init_effect(m, this, sender, amount, nonce),
        TokenCall::Transfer { sender, receiver, amount, nonce } => transfer_effect(
            m,
            this,
            sender,
            receiver,
            amount,
            nonce,
        ),
        TokenCall::Collect { sender, receiver, nonce, inbox_nonce } => collect_effect(
            m,
            this,
            sender,
            receiver,
            nonce,
            inbox_nonce,
        ),
        TokenCall::Name => Some(read_back_effect(m, this, name_read_key())),
        TokenCall::TotalSupply => Some(read_back_effect(m, this, Word::Tag(Label::TotalSupply))),
        TokenCall::Decimal => Some(read_back_effect(m, this, Word::Tag(Label::Decimal))),
        TokenCall::BalanceOf { address } => Some(read_back_effect(m, this, balance_key(address))),
    }
}

/// The token contract: the address of each of its entries.
pub struct Token {
    pub init_address: Word,
    pub transfer_address: Word,
    pub collect_address: Word,
    pub name_address: Word,
    pub total_supply_address: Word,
    pub decimal_address: Word,
    pub balance_of_address: Word,
}

impl Token {
    /// The token contract whose entries have the given addresses.
    pub fn new(
        init_address: Word,
        transfer_address: Word,
        collect_address: Word,
        name_address: Word,
        total_supply_address: Word,
        decimal_address: Word,
        balance_of_address: Word,
    ) -> (r: Token)
        ensures
            r.init_address == init_address,
            r.transfer_address == transfer_address,
            r.collect_address == collect_address,
            r.name_address == name_address,
            r.total_supply_address == total_supply_address,
            r.decimal_address == decimal_address,
            r.balance_of_address == balance_of_address,
    {
        Token {
            init_address,
            transfer_address,
            collect_address,
            name_address,
            total_supply_address,
            decimal_address,
            balance_of_address,
        }
    }

    /// The entry that a call addressed to `address` reaches: the first entry,
    /// in the contract's order, that has this address.
    pub open spec fn entry_at(&self, address: Word) -> Option<TokenEntry> {
        if address == self.init_address {
            Some(TokenEntry::Init)
        } else if address == self.transfer_address {
            Some(TokenEntry::Transfer)
        } else if address == self.collect_address {
            Some(TokenEntry::Collect)
        } else if address == self.name_address {
            Some(TokenEntry::Name)
        } else if address == self.total_supply_address {
            Some(TokenEntry::TotalSupply)
        } else if address == self.decimal_address {
            Some(TokenEntry::Decimal)
        } else if address == self.balance_of_address {
            Some(TokenEntry::BalanceOf)
        } else {
            None
        }
    }

    /// The entry that a call addressed to `address` reaches.
    pub fn entry(&self, address: &Word) -> (r: Option<TokenEntry>)
        ensures
            r == self.entry_at(*address),
    {
        if address.same(&self.init_address) {
            Some(TokenEntry::Init)
        } else if address.same(&self.transfer_address) {
            Some(TokenEntry::Transfer)
        } else if address.same(&self.collect_address) {
            Some(TokenEntry::Collect)
        } else if address.same(&self.name_address) {
            Some(TokenEntry::Name)
        } else if address.same(&self.total_supply_address) {
            Some(TokenEntry::TotalSupply)
        } else if address.same(&self.decimal_address) {
            Some(TokenEntry::Decimal)
        } else if address.same(&self.balance_of_address) {
            Some(TokenEntry::BalanceOf)
        } else {
            None
        }
    }

    /// Runs a call addressed to `entry` on the contract deployed at `this`:
    /// refused where `entry` is no entry of the contract, another entry than
    /// the call is for, or an entry that reads an argument the contract does
    /// not hand it; else what that entry does.
    pub fn execute(&self, chain: &Chain, this: &Word, entry: &Word, call: &TokenCall) -> (r:
        Option<Outcome>)
        ensures
            effect_of(r) == (if self.entry_at(*entry) == Some(call.entry_kind()) && covered(
                read_args(call.entry_kind()),
                supplied_args(call.entry_kind()),
            ) {
                call_effect(chain@, *this, *call)
            } else {
                None
            }),
    {
        let kind = match self.entry(entry) {
            Some(kind) => kind,
            None => return None,
        };
        if !covers(&read_arg_list(kind), &supplied_arg_list(kind)) {
            return None;
        }
        match call {
            TokenCall::Init { sender, amount, nonce } => {
                if kind != TokenEntry::Init {
                    return None;
                }
                init(chain, this, sender, amount, nonce)
            },
            TokenCall::Transfer { sender, receiver, amount, nonce } => {
                if kind != TokenEntry::Transfer {
                    return None;
                }
                transfer(chain, this, sender, receiver, amount, nonce)
            },
            TokenCall::Collect { sender, receiver, nonce, inbox_nonce } => {
                if kind != TokenEntry::Collect {
                    return None;
                }
                collect(chain, this, sender, receiver, nonce, inbox_nonce)
            },
            TokenCall::Name => {
                if kind != TokenEntry::Name {
                    return None;
                }
                Some(name(chain, this))
            },
            TokenCall::TotalSupply => {
                if kind != TokenEntry::TotalSupply {
                    return None;
                }
                Some(total_supply(chain, this))
            },
            TokenCall::Decimal => {
                if kind != TokenEntry::Decimal {
                    return None;
                }
                Some(decimal(chain, this))
            },
            TokenCall::BalanceOf { address } => {
                if kind != TokenEntry::BalanceOf {
                    return None;
                }
                Some(balance_of(chain, this, address))
            },
        }
    }
}

} // verus!
