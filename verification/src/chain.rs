//! The storage of all contracts, and what a call of a contract entry produces.
use vstd::prelude::*;
use crate::word::{Word, zero};

verus! {

/// What `slot` reads: the value that contract `c` holds under key `k`, or the
/// all-zero word where nothing was written there.
pub open spec fn slot(m: Map<(Word, Word), Word>, c: Word, k: Word) -> Word {
    if m.dom().contains((c, k)) {
        m[(c, k)]
    } else {
        zero()
    }
}

/// The storage after contract `c` has written `diffs` in order, a later write
/// to a key replacing an earlier one.
pub open spec fn apply_diffs(m: Map<(Word, Word), Word>, c: Word, diffs: Seq<(Word, Word)>) -> Map<
    (Word, Word),
    Word,
>
    decreases diffs.len(),
{
    if diffs.len() == 0 {
        m
    } else {
        apply_diffs(m, c, diffs.drop_last()).insert((c, diffs.last().0), diffs.last().1)
    }
}

/// The writes that contract `c` makes by `diffs`, as entries of the history.
pub open spec fn writes_of(c: Word, diffs: Seq<(Word, Word)>) -> Seq<(Word, Word, Word)> {
    diffs.map_values(|d: (Word, Word)| (c, d.0, d.1))
}

/// The latest value written to key `k` of contract `c` in a log of writes.
pub open spec fn latest(log: Seq<(Word, Word, Word)>, c: Word, k: Word) -> Option<Word>
    decreases log.len(),
{
    if log.len() == 0 {
        None
    } else if log.last().0 == c && log.last().1 == k {
        Some(log.last().2)
    } else {
        latest(log.drop_last(), c, k)
    }
}

/// The last write to key `k` of contract `c` in a log of writes, as a change:
/// the value the slot held before it (zero where it held none) and the value
/// written; `None` where the log never writes that slot.
pub open spec fn last_change(log: Seq<(Word, Word, Word)>, c: Word, k: Word) -> Option<SlotNode>
    decreases log.len(),
{
    if log.len() == 0 {
        None
    } else if log.last().0 == c && log.last().1 == k {
        Some(
            SlotNode {
                prev: match latest(log.drop_last(), c, k) {
                    Some(v) => v,
                    None => zero(),
                },
                item: log.last().2,
            },
        )
    } else {
        last_change(log.drop_last(), c, k)
    }
}

/// The storage of every contract: for each (contract address, key) the value
/// written there last. It keeps the writes in the order they were made, so
/// that a snapshot's last change to a slot can be read.
pub struct Chain {
    log: Vec<(Word, Word, Word)>,
}

impl View for Chain {
    type V = Map<(Word, Word), Word>;

    closed spec fn view(&self) -> Map<(Word, Word), Word> {
        Map::new(
            |ck: (Word, Word)| latest(self.log@, ck.0, ck.1) is Some,
            |ck: (Word, Word)| latest(self.log@, ck.0, ck.1).unwrap(),
        )
    }
}

impl Chain {
    /// The writes made on the chain, in order: (contract, key, value).
    pub closed spec fn history(&self) -> Seq<(Word, Word, Word)> {
        self.log@
    }

    /// The storage is what the history wrote last.
    pub proof fn lemma_view_from_history(&self, c: Word, k: Word)
        ensures
            self@.dom().contains((c, k)) <==> latest(self.history(), c, k) is Some,
            latest(self.history(), c, k) is Some ==> self@[(c, k)] == latest(
                self.history(),
                c,
                k,
            ).unwrap(),
    {
    }

    /// The latest value written to `key` of `contract` among the first `end`
    /// writes.
    fn latest_before(&self, end: usize, contract: &Word, key: &Word) -> (r: Option<Word>)
        requires
            end <= self.log@.len(),
        ensures
            r == latest(self.log@.subrange(0, end as int), *contract, *key),
    {
        let mut i = end;
        while i > 0
            invariant
                i <= end <= self.log@.len(),
                latest(self.log@.subrange(0, end as int), *contract, *key) == latest(
                    self.log@.subrange(0, i as int),
                    *contract,
                    *key,
                ),
            decreases i,
        {
            let e = &self.log[i - 1];
            if e.0.same(contract) && e.1.same(key) {
                return Some(e.2.copy());
            }
            assert(self.log@.subrange(0, i as int).drop_last() =~= self.log@.subrange(
                0,
                i - 1,
            ));
            i = i - 1;
        }
        None
    }

    /// The last change to `key` of `contract` (`leaf` and `slotnode` of a
    /// snapshot): the value before the last write to it and the value written.
    pub fn last_change(&self, contract: &Word, key: &Word) -> (r: Option<SlotNode>)
        ensures
            r == last_change(self.history(), *contract, *key),
    {
        let mut i = self.log.len();
        assert(self.log@.subrange(0, i as int) =~= self.log@);
        while i > 0
            invariant
                i <= self.log@.len(),
                last_change(self.log@, *contract, *key) == last_change(
                    self.log@.subrange(0, i as int),
                    *contract,
                    *key,
                ),
            decreases i,
        {
            let e = &self.log[i - 1];
            if e.0.same(contract) && e.1.same(key) {
                let before = self.latest_before(i - 1, contract, key);
                assert(self.log@.subrange(0, i as int).drop_last() =~= self.log@.subrange(
                    0,
                    i - 1,
                ));
                let prev = match before {
                    Some(v) => v,
                    None => zero_word(),
                };
                return Some(SlotNode { prev, item: e.2.copy() });
            }
            assert(self.log@.subrange(0, i as int).drop_last() =~= self.log@.subrange(
                0,
                i - 1,
            ));
            i = i - 1;
        }
        None
    }

    /// A chain on which nothing has been written.
    pub fn new() -> (r: Chain)
        ensures
            r@ == Map::<(Word, Word), Word>::empty(),
            r.history() == Seq::<(Word, Word, Word)>::empty(),
    {
        let r = Chain { log: Vec::new() };
        assert(r@ =~= Map::<(Word, Word), Word>::empty());
        r
    }

    /// The value of key `key` in the storage of contract `contract`.
    pub fn read(&self, contract: &Word, key: &Word) -> (r: Word)
        ensures
            r == slot(self@, *contract, *key),
    {
        let mut i = self.log.len();
        assert(self.log@.subrange(0, i as int) =~= self.log@);
        while i > 0
            invariant
                i <= self.log@.len(),
                latest(self.log@, *contract, *key) == latest(
                    self.log@.subrange(0, i as int),
                    *contract,
                    *key,
                ),
            decreases i,
        {
            let e = &self.log[i - 1];
            if e.0.same(contract) && e.1.same(key) {
                return e.2.copy();
            }
            assert(self.log@.subrange(0, i as int).drop_last() =~= self.log@.subrange(
                0,
                i - 1,
            ));
            i = i - 1;
        }
        zero_word()
    }

    /// Writes `value` under key `key` of contract `contract`.
    pub fn write(&mut self, contract: Word, key: Word, value: Word)
        ensures
            final(self)@ == old(self)@.insert((contract, key), value),
            final(self).history() == old(self).history().push((contract, key, value)),
    {
        let ghost c = contract;
        let ghost k = key;
        let ghost v = value;
        self.log.push((contract, key, value));
        assert(self.log@.drop_last() =~= old(self).log@);
        assert(self@ =~= old(self)@.insert((c, k), v));
    }

    /// Applies, in order, the writes that a call of contract `contract` produced.
    pub fn apply(&mut self, contract: &Word, diffs: &Vec<(Word, Word)>)
        ensures
            final(self)@ == apply_diffs(old(self)@, *contract, diffs@),
            final(self).history() == old(self).history() + writes_of(*contract, diffs@),
    {
        let mut i: usize = 0;
        while i < diffs.len()
            invariant
                i <= diffs@.len(),
                self@ == apply_diffs(old(self)@, *contract, diffs@.subrange(0, i as int)),
                self.history() == old(self).history() + writes_of(
                    *contract,
                    diffs@.subrange(0, i as int),
                ),
            decreases diffs@.len() - i,
        {
            let d = &diffs[i];
            self.write(contract.copy(), d.0.copy(), d.1.copy());
            assert(diffs@.subrange(0, i + 1).drop_last() =~= diffs@.subrange(0, i as int));
            assert(writes_of(*contract, diffs@.subrange(0, i + 1)) =~= writes_of(
                *contract,
                diffs@.subrange(0, i as int),
            ).push((*contract, diffs@[i as int].0, diffs@[i as int].1)));
            i = i + 1;
        }
        assert(diffs@.subrange(0, diffs@.len() as int) =~= diffs@);
    }
}

/// The all-zero word.
pub fn zero_word() -> (r: Word)
    ensures
        r == zero(),
{
    Word::Num(0)
}

/// What an entry hands to its approval: the caller signs `message` under
/// `nonce` with the key whose address is `signer`.
#[derive(Debug, PartialEq, Eq)]
pub struct Approval {
    pub nonce: Word,
    pub message: Word,
    pub signer: Word,
}

/// The last change to a slot in a snapshot (`slotnode` of `leaf`): the value
/// the slot held before, and the value written.
#[derive(Debug, PartialEq, Eq)]
pub struct SlotNode {
    pub prev: Word,
    pub item: Word,
}

/// What a successful call of an entry produces: its writes to the contract's
/// own storage, in order, and the approval it asks for, if any.
#[derive(Debug, PartialEq, Eq)]
pub struct Outcome {
    pub diffs: Vec<(Word, Word)>,
    pub approval: Option<Approval>,
}

/// The mathematical form of an [`Outcome`].
pub struct Effect {
    pub diffs: Seq<(Word, Word)>,
    pub approval: Option<Approval>,
}

impl View for Outcome {
    type V = Effect;

    open spec fn view(&self) -> Effect {
        Effect { diffs: self.diffs@, approval: self.approval }
    }
}

/// The mathematical form of the result of a call that may be refused.
pub open spec fn effect_of(r: Option<Outcome>) -> Option<Effect> {
    match r {
        Some(o) => Some(o@),
        None => None,
    }
}

} // verus!
