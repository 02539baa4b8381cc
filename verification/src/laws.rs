//! What holds of `split` and `combine` together: each undoes the other, no
//! words at all leave the bytes as they are, and the order of the words shows
//! in the bytes.

use vstd::prelude::*;

use crate::codec::{boundary, combine, split, word_at, words_well_formed, SplitProof, WORD_SIZE};

verus! {

/// The words of a byte sequence that consists of `count` whole words joined
/// give the sequence back.
proof fn lemma_words_join(bytes: Seq<u8>, count: nat)
    requires
        bytes.len() == count * WORD_SIZE,
    ensures
        Seq::new(count, |index: int| word_at(bytes, count, index)).flatten() == bytes,
    decreases count,
{
    let words = Seq::new(count, |index: int| word_at(bytes, count, index));
    if count == 0 {
        assert(words.flatten() =~= bytes);
    } else {
        let fewer = (count - 1) as nat;
        let front = bytes.subrange(0, fewer * WORD_SIZE);
        let front_words = Seq::new(fewer, |index: int| word_at(front, fewer, index));
        let last = word_at(bytes, count, count - 1);
        assert(fewer * WORD_SIZE + WORD_SIZE == count * WORD_SIZE) by (nonlinear_arith)
            requires
                fewer + 1 == count,
        ;
        lemma_words_join(front, fewer);
        assert forall|index: int| 0 <= index < fewer implies front_words[index] == words[index] by {
            assert(0 <= index * WORD_SIZE && (index + 1) * WORD_SIZE <= fewer * WORD_SIZE)
                by (nonlinear_arith)
                requires
                    0 <= index < fewer,
            ;
            assert(front_words[index] =~= words[index]);
        }
        assert(words =~= front_words.push(last));
        front_words.lemma_flatten_push(last);
        assert(front + last =~= bytes);
    }
}

/// Joined words of the fixed width take up that width each, and every word is
/// found again at its place.
proof fn lemma_join_words(words: Seq<Seq<u8>>)
    requires
        words_well_formed(words),
    ensures
        words.flatten().len() == words.len() * WORD_SIZE,
        forall|index: int|
            0 <= index < words.len() ==> #[trigger] word_at(words.flatten(), words.len(), index)
                == words[index],
    decreases words.len(),
{
    if words.len() == 0 {
        assert(words.flatten() =~= Seq::<u8>::empty());
    } else {
        let front = words.drop_last();
        let last = words.last();
        let fewer = front.len();
        lemma_join_words(front);
        assert(words =~= front.push(last));
        front.lemma_flatten_push(last);
        assert(fewer * WORD_SIZE + WORD_SIZE == words.len() * WORD_SIZE) by (nonlinear_arith)
            requires
                fewer + 1 == words.len(),
        ;
        assert forall|index: int| 0 <= index < words.len() implies #[trigger] word_at(
            words.flatten(),
            words.len(),
            index,
        ) == words[index] by {
            assert(0 <= index * WORD_SIZE && (index + 1) * WORD_SIZE <= words.len() * WORD_SIZE)
                by (nonlinear_arith)
                requires
                    0 <= index < words.len(),
            ;
            if index < fewer {
                assert((index + 1) * WORD_SIZE <= fewer * WORD_SIZE) by (nonlinear_arith)
                    requires
                        index < fewer,
                ;
                assert(word_at(front.flatten(), fewer, index) == front[index]);
                assert(word_at(words.flatten(), words.len(), index) =~= word_at(
                    front.flatten(),
                    fewer,
                    index,
                ));
            } else {
                assert(word_at(words.flatten(), words.len(), index) =~= last);
            }
        }
    }
}

/// Round trip: what `split` takes apart, `combine` puts together again, byte
/// for byte.
pub proof fn law_combine_undoes_split(combined: Seq<u8>, count: nat)
    requires
        combined.len() >= count * WORD_SIZE,
    ensures
        split(combined, count) matches Some(parts) && parts.well_formed() && combine(
            parts.proof,
            parts.public_inputs,
        ) == Some(combined),
{
    let parts = split(combined, count)->Some_0;
    let start = boundary(combined, count);
    let tail = combined.subrange(start, combined.len() as int);
    let tail_words = Seq::new(count, |index: int| word_at(tail, count, index));
    assert forall|index: int| 0 <= index < count implies tail_words[index]
        == parts.public_inputs[index] by {
        assert(0 <= index * WORD_SIZE && (index + 1) * WORD_SIZE <= count * WORD_SIZE)
            by (nonlinear_arith)
            requires
                0 <= index < count,
        ;
        assert(tail_words[index] =~= parts.public_inputs[index]);
    }
    assert(tail_words =~= parts.public_inputs);
    lemma_words_join(tail, count);
    assert(parts.proof + tail =~= combined);
}

/// Inverse: what `combine` puts together, `split` takes apart into the same
/// proof and the same words, given their number.
pub proof fn law_split_undoes_combine(proof: Seq<u8>, public_inputs: Seq<Seq<u8>>)
    requires
        words_well_formed(public_inputs),
    ensures
        combine(proof, public_inputs) matches Some(combined) && split(
            combined,
            public_inputs.len(),
        ) == Some(
            SplitProof { proof, public_inputs, num_public_inputs: public_inputs.len() },
        ),
{
    let count = public_inputs.len();
    let joined = public_inputs.flatten();
    let combined = proof + joined;
    lemma_join_words(public_inputs);
    let parts = split(combined, count)->Some_0;
    assert(parts.proof =~= proof);
    assert forall|index: int| 0 <= index < count implies parts.public_inputs[index]
        == public_inputs[index] by {
        assert(0 <= index * WORD_SIZE && (index + 1) * WORD_SIZE <= count * WORD_SIZE)
            by (nonlinear_arith)
            requires
                0 <= index < count,
        ;
        assert(word_at(joined, count, index) == public_inputs[index]);
        assert(parts.public_inputs[index] =~= word_at(joined, count, index));
    }
    assert(parts.public_inputs =~= public_inputs);
}

/// With no public inputs the whole blob is the proof.
pub proof fn law_split_none(combined: Seq<u8>)
    ensures
        split(combined, 0) == Some(
            SplitProof {
                proof: combined,
                public_inputs: Seq::<Seq<u8>>::empty(),
                num_public_inputs: 0,
            },
        ),
{
    let parts = split(combined, 0)->Some_0;
    assert(parts.proof =~= combined);
    assert(parts.public_inputs =~= Seq::<Seq<u8>>::empty());
}

/// A proof combined with no public inputs is the proof itself.
pub proof fn law_combine_none(proof: Seq<u8>)
    ensures
        combine(proof, Seq::<Seq<u8>>::empty()) == Some(proof),
{
    assert(proof + Seq::<Seq<u8>>::empty().flatten() =~= proof);
}

/// A blob splits exactly when it is long enough to end with the words asked for.
pub proof fn law_split_fails_on_short_input(combined: Seq<u8>, count: nat)
    ensures
        split(combined, count) is None <==> combined.len() < count * WORD_SIZE,
{
}

/// The order of the words shows in the bytes: two different words of the
/// fixed width, swapped, give another blob.
pub proof fn law_order_matters(proof: Seq<u8>, first: Seq<u8>, second: Seq<u8>)
    requires
        first.len() == WORD_SIZE,
        second.len() == WORD_SIZE,
        first != second,
    ensures
        combine(proof, seq![first, second]) is Some,
        combine(proof, seq![second, first]) is Some,
        combine(proof, seq![first, second]) != combine(proof, seq![second, first]),
{
    let one_way = seq![first, second];
    let other_way = seq![second, first];
    law_split_undoes_combine(proof, one_way);
    law_split_undoes_combine(proof, other_way);
    if combine(proof, one_way) == combine(proof, other_way) {
        assert(one_way == other_way);
        assert(one_way[0] == other_way[0]);
    }
}

} // verus!
