//! Values of the contracts' storage: four field elements, held symbolically.
//!
//! A slot key or a stored value is what the contracts build from constants,
//! call arguments and hashes. A hash is held as the pair (or single value) it
//! was computed from, so two keys are the same slot exactly when they were
//! built the same way; this is the collision resistance that the contracts
//! rely on when they derive storage keys by hashing.
use vstd::prelude::*;

verus! {

/// The string constants that the contracts hash (`constant_hash_of_str`) or
/// store (`constant_str`). Each variant stands for one distinct string; the
/// strings are given in the variant's doc comment, spelled as the contracts
/// spell them.
#[derive(PartialEq, Eq, Structural, Clone, Copy, Debug)]
pub enum Label {
    /// "balance"
    Balance,
    /// "inbox"
    Inbox,
    /// "name"
    Name,
    /// "total_supply"
    TotalSupply,
    /// "decimal"
    Decimal,
    /// "Test", the token's name
    Test,
    /// "pool"
    Pool,
    /// "deposit"
    Deposit,
    /// "withdraw"
    Withdraw,
    /// "withdraw_reduce"
    WithdrawReduce,
    /// "liquidity_inbox"
    LiquidityInbox,
    /// "swap_liquidity"
    SwapLiquidity,
    /// "reserve"
    Reserve,
    /// "reserve_liquidity"
    ReserveLiquidity,
    /// "add_liquidiy", the tag that the liquidity requests and their reduction use
    AddLiquidiy,
    /// "remove_liquidity", the tag that a removal request records
    RemoveLiquidity,
    /// "remove_liquidiy", the tag that the reduction of the liquidity queue tests for
    RemoveLiquidiy,
    /// "liquidity_reduce"
    LiquidityReduce,
}

/// A value of four field elements, as the contracts see it.
#[derive(Debug, PartialEq, Eq)]
pub enum Word {
    /// An unsigned 128-bit number (`constant_u128`, `u128_to_field`); `Num(0)`
    /// is the all-zero word (`constant_zeros`), which an unwritten slot holds.
    Num(u128),
    /// The word `constant_ones`.
    Ones,
    /// Four raw field elements, not all zero, such as an address. Four zero
    /// elements are the zero word, `Num(0)`; [`Word::felts`] builds either.
    Felts(Felts),
    /// A stored string (`constant_str`).
    Text(Label),
    /// The hash of a string (`constant_hash_of_str`).
    Tag(Label),
    /// The hash of one word (`hash`).
    Digest(Box<Word>),
    /// The hash of two words (`hash2to1`).
    Hash(Box<Word>, Box<Word>),
}

/// Four field elements of which at least one is not zero.
#[derive(Debug, PartialEq, Eq)]
pub struct Felts {
    e0: u64,
    e1: u64,
    e2: u64,
    e3: u64,
}

impl Felts {
    /// The four elements.
    pub closed spec fn elems(self) -> (u64, u64, u64, u64) {
        (self.e0, self.e1, self.e2, self.e3)
    }

    #[verifier::type_invariant]
    spec fn not_all_zero(self) -> bool {
        !(self.e0 == 0 && self.e1 == 0 && self.e2 == 0 && self.e3 == 0)
    }

    /// Two values with the same elements are the same.
    pub proof fn lemma_elems_determine(a: Felts, b: Felts)
        ensures
            a.elems() == b.elems() <==> a == b,
    {
    }

    /// The elements, in order.
    pub fn elements(&self) -> (r: (u64, u64, u64, u64))
        ensures
            r == self.elems(),
    {
        (self.e0, self.e1, self.e2, self.e3)
    }
}

/// The word of four field elements: the zero word where all four are zero.
pub open spec fn felts_word(e0: u64, e1: u64, e2: u64, e3: u64) -> Word {
    if e0 == 0 && e1 == 0 && e2 == 0 && e3 == 0 {
        Word::Num(0)
    } else {
        Word::Felts(choose|f: Felts| f.elems() == (e0, e1, e2, e3))
    }
}

/// The all-zero word.
pub open spec fn zero() -> Word {
    Word::Num(0)
}

/// The word `hash2to1(a, b)`.
pub open spec fn hashed(a: Word, b: Word) -> Word {
    Word::Hash(Box::new(a), Box::new(b))
}

/// `u128_add` with its overflow check: defined on two numbers whose sum fits.
pub open spec fn word_sum(a: Word, b: Word) -> Option<Word> {
    match (a, b) {
        (Word::Num(x), Word::Num(y)) => if x + y <= u128::MAX {
            Some(Word::Num((x + y) as u128))
        } else {
            None
        },
        _ => None,
    }
}

/// `u128_sub` with its underflow check: defined on two numbers, the first not
/// below the second.
pub open spec fn word_difference(a: Word, b: Word) -> Option<Word> {
    match (a, b) {
        (Word::Num(x), Word::Num(y)) => if x >= y {
            Some(Word::Num((x - y) as u128))
        } else {
            None
        },
        _ => None,
    }
}

/// Builds the word `hash2to1(a, b)`.
pub fn hash_pair(a: Word, b: Word) -> (r: Word)
    ensures
        r == hashed(a, b),
{
    Word::Hash(Box::new(a), Box::new(b))
}

/// The checked sum of two words, `None` where the circuit's check fails.
pub fn add_words(a: &Word, b: &Word) -> (r: Option<Word>)
    ensures
        r == word_sum(*a, *b),
{
    match a {
        Word::Num(x) => match b {
            Word::Num(y) => {
                if *x <= u128::MAX - *y {
                    Some(Word::Num(*x + *y))
                } else {
                    None
                }
            },
            _ => None,
        },
        _ => None,
    }
}

/// The checked difference of two words, `None` where the circuit's check fails.
pub fn sub_words(a: &Word, b: &Word) -> (r: Option<Word>)
    ensures
        r == word_difference(*a, *b),
{
    match a {
        Word::Num(x) => match b {
            Word::Num(y) => {
                if *x >= *y {
                    Some(Word::Num(*x - *y))
                } else {
                    None
                }
            },
            _ => None,
        },
        _ => None,
    }
}

impl Word {
    /// The word of four field elements (such as an address): the zero word
    /// where all four are zero, and else a [`Word::Felts`] holding them.
    pub fn felts(e0: u64, e1: u64, e2: u64, e3: u64) -> (r: Word)
        ensures
            r == felts_word(e0, e1, e2, e3),
            !(e0 == 0 && e1 == 0 && e2 == 0 && e3 == 0) ==> (r matches Word::Felts(f) && f.elems()
                == (e0, e1, e2, e3)),
    {
        if e0 == 0 && e1 == 0 && e2 == 0 && e3 == 0 {
            Word::Num(0)
        } else {
            let f = Felts { e0, e1, e2, e3 };
            assert(f.elems() == (e0, e1, e2, e3));
            assert(exists|g: Felts| g.elems() == (e0, e1, e2, e3));
            let ghost c = choose|g: Felts| g.elems() == (e0, e1, e2, e3);
            proof {
                Felts::lemma_elems_determine(c, f);
            }
            Word::Felts(f)
        }
    }

    /// Whether two words are equal (`equal` of the circuit builder).
    pub fn same(&self, other: &Word) -> (r: bool)
        ensures
            r == (*self == *other),
        decreases self,
    {
        match self {
            Word::Num(a) => match other {
                Word::Num(b) => *a == *b,
                _ => false,
            },
            Word::Ones => match other {
                Word::Ones => true,
                _ => false,
            },
            Word::Felts(a) => match other {
                Word::Felts(b) => {
                    let r = a.e0 == b.e0 && a.e1 == b.e1 && a.e2 == b.e2 && a.e3 == b.e3;
                    proof {
                        Felts::lemma_elems_determine(*a, *b);
                    }
                    r
                },
                _ => false,
            },
            Word::Text(a) => match other {
                Word::Text(b) => *a == *b,
                _ => false,
            },
            Word::Tag(a) => match other {
                Word::Tag(b) => *a == *b,
                _ => false,
            },
            Word::Digest(a) => match other {
                Word::Digest(b) => (**a).same(&**b),
                _ => false,
            },
            Word::Hash(a, b) => match other {
                Word::Hash(c, d) => (**a).same(&**c) && (**b).same(&**d),
                _ => false,
            },
        }
    }

    /// Whether the word is the all-zero word.
    pub fn is_zero(&self) -> (r: bool)
        ensures
            r == (*self == zero()),
    {
        match self {
            Word::Num(a) => *a == 0,
            _ => false,
        }
    }

    /// A copy of the word.
    pub fn copy(&self) -> (r: Word)
        ensures
            r == *self,
        decreases self,
    {
        match self {
            Word::Num(a) => Word::Num(*a),
            Word::Ones => Word::Ones,
            Word::Felts(a) => {
                proof {
                    use_type_invariant(a);
                }
                Word::Felts(Felts { e0: a.e0, e1: a.e1, e2: a.e2, e3: a.e3 })
            },
            Word::Text(a) => Word::Text(*a),
            Word::Tag(a) => Word::Tag(*a),
            Word::Digest(a) => Word::Digest(Box::new((**a).copy())),
            Word::Hash(a, b) => Word::Hash(Box::new((**a).copy()), Box::new((**b).copy())),
        }
    }
}

} // verus!
