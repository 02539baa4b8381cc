//! The layout of a combined proof: a proof section of any length, followed by
//! the public inputs as fixed-width words. The number of words is not part of
//! the bytes; whoever splits a combined proof supplies it.

use vstd::prelude::*;
use vstd::slice::{slice_subrange, slice_to_vec};

use crate::error::MoproError;

verus! {

/// Width of one public-input word in bytes: one field element.
pub const WORD_SIZE: usize = 32;

/// A combined proof taken apart, as mathematical values.
pub struct SplitProof {
    /// The bytes that precede the public-input words.
    pub proof: Seq<u8>,
    /// The public-input words, in the order in which the combined proof holds them.
    pub public_inputs: Seq<Seq<u8>>,
    /// How many public-input words there are.
    pub num_public_inputs: nat,
}

/// Every word is exactly `WORD_SIZE` bytes wide.
pub open spec fn words_well_formed(words: Seq<Seq<u8>>) -> bool {
    forall|i: int| 0 <= i < words.len() ==> (#[trigger] words[i]).len() == WORD_SIZE
}

impl SplitProof {
    /// The words have the fixed width and the count is theirs.
    pub open spec fn well_formed(self) -> bool {
        &&& words_well_formed(self.public_inputs)
        &&& self.num_public_inputs == self.public_inputs.len()
    }
}

/// The words that a vector of byte vectors stands for.
pub open spec fn words_view(words: Seq<Vec<u8>>) -> Seq<Seq<u8>> {
    words.map_values(|word: Vec<u8>| word@)
}

/// Where the public-input words begin in a combined proof that ends with `count` of them.
pub open spec fn boundary(combined: Seq<u8>, count: nat) -> int {
    combined.len() - count * WORD_SIZE
}

/// The `index`-th public-input word of a combined proof that ends with `count` words.
pub open spec fn word_at(combined: Seq<u8>, count: nat, index: int) -> Seq<u8> {
    combined.subrange(
        boundary(combined, count) + index * WORD_SIZE,
        boundary(combined, count) + (index + 1) * WORD_SIZE,
    )
}

/// A combined proof taken apart at the boundary that `count` words leave, or
/// `None` where it is too short to end with that many words.
pub open spec fn split(combined: Seq<u8>, count: nat) -> Option<SplitProof> {
    if combined.len() < count * WORD_SIZE {
        None
    } else {
        Some(
            SplitProof {
                proof: combined.subrange(0, boundary(combined, count)),
                public_inputs: Seq::new(count, |index: int| word_at(combined, count, index)),
                num_public_inputs: count,
            },
        )
    }
}

/// The proof section followed by the words in order, with nothing between
/// them, or `None` where a word has not the fixed width.
pub open spec fn combine(proof: Seq<u8>, public_inputs: Seq<Seq<u8>>) -> Option<Seq<u8>> {
    if words_well_formed(public_inputs) {
        Some(proof + public_inputs.flatten())
    } else {
        None
    }
}

/// A combined proof taken apart.
#[derive(Debug, Clone, PartialEq, Eq)]
pub struct ProofWithPublicInputs {
    /// The proof without public inputs
    pub proof: Vec<u8>,
    /// The public inputs as an array of 32-byte values
    pub public_inputs: Vec<Vec<u8>>,
    /// The number of public inputs
    pub num_public_inputs: u32,
}

impl View for ProofWithPublicInputs {
    type V = SplitProof;

    open spec fn view(&self) -> SplitProof {
        SplitProof {
            proof: self.proof@,
            public_inputs: words_view(self.public_inputs@),
            num_public_inputs: self.num_public_inputs as nat,
        }
    }
}

/// Parse a proof into proof bytes and public inputs.
///
/// The last `num_public_inputs * WORD_SIZE` bytes are the public inputs, one
/// word each and in order; what precedes them is the proof. A blob shorter
/// than that is rejected: nothing is cut short or filled up.
pub fn parse_proof_with_public_inputs(proof: Vec<u8>, num_public_inputs: u32) -> (result: Result<
    ProofWithPublicInputs,
    MoproError,
>)
    ensures
        match result {
            Ok(parts) => split(proof@, num_public_inputs as nat) == Some(parts@)
                && parts@.well_formed(),
            Err(error) => split(proof@, num_public_inputs as nat) is None
                && error == MoproError::MalformedProof,
        },
        result is Err <==> proof@.len() < num_public_inputs * WORD_SIZE,
        result matches Ok(parts) ==> {
            &&& parts.proof@ == proof@.subrange(0, boundary(proof@, num_public_inputs as nat))
            &&& parts.public_inputs@.len() == num_public_inputs
            &&& forall|index: int|
                0 <= index < num_public_inputs ==> (#[trigger] parts.public_inputs@[index])@
                    == word_at(proof@, num_public_inputs as nat, index)
        },
        num_public_inputs == 0 ==> result is Ok && result->Ok_0.proof@ == proof@
            && result->Ok_0.public_inputs@.len() == 0,
{
    let ghost combined = proof@;
    let ghost count = num_public_inputs as nat;
    let total: usize = proof.len();
    let needed: u64 = (num_public_inputs as u64) * (WORD_SIZE as u64);
    if (total as u64) < needed {
        return Err(MoproError::MalformedProof);
    }
    let start: usize = total - (needed as usize);
    let mut public_inputs: Vec<Vec<u8>> = Vec::new();
    let mut index: u32 = 0;
    while index < num_public_inputs
        invariant
            index <= num_public_inputs,
            combined == proof@,
            count == num_public_inputs,
            total == combined.len(),
            start == boundary(combined, count),
            start + count * WORD_SIZE == total,
            public_inputs@.len() == index,
            forall|j: int|
                0 <= j < index ==> (#[trigger] public_inputs@[j])@ == word_at(combined, count, j),
        decreases num_public_inputs - index,
    {
        assert(start + (index + 1) * WORD_SIZE <= total) by (nonlinear_arith)
            requires
                index < count,
                start + count * WORD_SIZE == total,
        ;
        let from: usize = start + (index as usize) * WORD_SIZE;
        let word = slice_to_vec(slice_subrange(proof.as_slice(), from, from + WORD_SIZE));
        public_inputs.push(word);
        index = index + 1;
    }
    let mut head = proof;
    head.truncate(start);
    let parts = ProofWithPublicInputs { proof: head, public_inputs, num_public_inputs };
    assert(parts@.public_inputs =~= split(combined, count)->Some_0.public_inputs);
    assert(num_public_inputs == 0 ==> parts.proof@ =~= combined);
    Ok(parts)
}

/// Combine proof and public inputs back into a single proof with public inputs.
///
/// The result is the proof followed by the words in the order given, with no
/// separator and no length prefix. A word that is not `WORD_SIZE` bytes wide
/// is rejected.
pub fn combine_proof_and_public_inputs(proof: Vec<u8>, public_inputs: Vec<Vec<u8>>) -> (result:
    Result<Vec<u8>, MoproError>)
    ensures
        match result {
            Ok(bytes) => combine(proof@, words_view(public_inputs@)) == Some(bytes@),
            Err(error) => combine(proof@, words_view(public_inputs@)) is None
                && error == MoproError::MalformedPublicInput,
        },
        result is Err <==> !words_well_formed(words_view(public_inputs@)),
        public_inputs@.len() == 0 ==> result is Ok && result->Ok_0@ == proof@,
{
    let ghost head = proof@;
    let ghost words = words_view(public_inputs@);
    let mut combined = proof;
    let mut index: usize = 0;
    assert(words.take(0) =~= Seq::<Seq<u8>>::empty());
    while index < public_inputs.len()
        invariant
            index <= public_inputs@.len(),
            words == words_view(public_inputs@),
            words_well_formed(words.take(index as int)),
            combined@ == head + words.take(index as int).flatten(),
        decreases public_inputs@.len() - index,
    {
        let word = &public_inputs[index];
        if word.len() != WORD_SIZE {
            assert(words[index as int].len() != WORD_SIZE);
            return Err(MoproError::MalformedPublicInput);
        }
        let mut offset: usize = 0;
        while offset < WORD_SIZE
            invariant
                offset <= WORD_SIZE,
                word@.len() == WORD_SIZE,
                combined@ == head + words.take(index as int).flatten() + word@.take(offset as int),
            decreases WORD_SIZE - offset,
        {
            combined.push(word[offset]);
            assert(word@.take(offset + 1) =~= word@.take(offset as int).push(word@[offset as int]));
            offset = offset + 1;
        }
        proof {
            assert(word@.take(WORD_SIZE as int) =~= word@);
            assert(words.take(index + 1) =~= words.take(index as int).push(word@));
            words.take(index as int).lemma_flatten_push(word@);
        }
        index = index + 1;
    }
    assert(words.take(index as int) =~= words);
    assert(public_inputs@.len() == 0 ==> combined@ =~= head);
    Ok(combined)
}

} // verus!
