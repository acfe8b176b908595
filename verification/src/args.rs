//! The named arguments of a call, and which of them reach an entry.
//!
//! A contract made of several entries hands each entry only the arguments
//! that its list names. An entry whose circuit reads an argument that its
//! list leaves out has no value for that input, so a call of it through the
//! contract is refused.
use vstd::prelude::*;

verus! {

/// The name of a call argument, spelled as the contracts spell it.
#[derive(PartialEq, Eq, Structural, Clone, Copy, Debug)]
pub enum Arg {
    /// "sender"
    Sender,
    /// "proof"
    Proof,
    /// "amount"
    Amount,
    /// "nonce"
    Nonce,
    /// "receiver"
    Receiver,
    /// "inbox_nonce"
    InboxNonce,
    /// "address"
    Address,
    /// "token_0"
    Token0,
    /// "token_1"
    Token1,
    /// "pool"
    Pool,
    /// "flag"
    Flag,
    /// "token"
    Token,
    /// "flag_0"
    Flag0,
    /// "flag_1"
    Flag1,
    /// "token_0_amount"
    Token0Amount,
    /// "token_1_amount"
    Token1Amount,
}

/// Whether every argument in `reads` is among `supplied`.
pub open spec fn covered(reads: Seq<Arg>, supplied: Seq<Arg>) -> bool {
    forall|i: int| 0 <= i < reads.len() ==> supplied.contains(#[trigger] reads[i])
}

/// Whether every argument in `reads` is among `supplied`.
pub fn covers(reads: &Vec<Arg>, supplied: &Vec<Arg>) -> (r: bool)
    ensures
        r == covered(reads@, supplied@),
{
    let mut i: usize = 0;
    while i < reads.len()
        invariant
            i <= reads@.len(),
            forall|j: int| 0 <= j < i ==> supplied@.contains(#[trigger] reads@[j]),
        decreases reads@.len() - i,
    {
        let a = reads[i];
        let mut found = false;
        let mut k: usize = 0;
        while k < supplied.len()
            invariant
                k <= supplied@.len(),
                found ==> supplied@.contains(a),
                !found ==> forall|l: int| 0 <= l < k ==> supplied@[l] != a,
            decreases supplied@.len() - k,
        {
            if supplied[k] == a {
                found = true;
            }
            k = k + 1;
        }
        if !found {
            assert(!supplied@.contains(reads@[i as int]));
            return false;
        }
        i = i + 1;
    }
    true
}

/// The list of `args` as a vector.
pub fn arg_list(args: &[Arg]) -> (r: Vec<Arg>)
    ensures
        r@ == args@,
{
    let mut r: Vec<Arg> = Vec::new();
    let mut i: usize = 0;
    while i < args.len()
        invariant
            i <= args@.len(),
            r@ == args@.subrange(0, i as int),
        decreases args@.len() - i,
    {
        r.push(args[i]);
        assert(r@ =~= args@.subrange(0, i + 1));
        i = i + 1;
    }
    assert(args@.subrange(0, args@.len() as int) =~= args@);
    r
}

} // verus!
