//! Sequences of messages of which some were lost.

use vstd::prelude::*;

verus! {

/// Whether `part` is `whole` with some elements left out.
pub open spec fn is_subsequence(part: Seq<Seq<u8>>, whole: Seq<Seq<u8>>) -> bool
    decreases whole.len(),
{
    ||| part.len() == 0
    ||| whole.len() > 0 && is_subsequence(part, whole.drop_last())
    ||| whole.len() > 0 && part.last() == whole.last() && is_subsequence(
        part.drop_last(),
        whole.drop_last(),
    )
}

/// A part of a part is a part of the whole.
pub proof fn lemma_subsequence_is_transitive(
    part: Seq<Seq<u8>>,
    middle: Seq<Seq<u8>>,
    whole: Seq<Seq<u8>>,
)
    requires
        is_subsequence(part, middle),
        is_subsequence(middle, whole),
    ensures
        is_subsequence(part, whole),
    decreases whole.len(),
{
    if part.len() > 0 {
        let rest = whole.drop_last();
        if is_subsequence(middle, rest) {
            lemma_subsequence_is_transitive(part, middle, rest);
        } else if is_subsequence(part, middle.drop_last()) {
            lemma_subsequence_is_transitive(part, middle.drop_last(), rest);
        } else {
            lemma_subsequence_is_transitive(part.drop_last(), middle.drop_last(), rest);
        }
    }
}

/// Parts of two sequences, joined, are a part of the two sequences joined.
pub proof fn lemma_joined_subsequences(
    left: Seq<Seq<u8>>,
    left_whole: Seq<Seq<u8>>,
    right: Seq<Seq<u8>>,
    right_whole: Seq<Seq<u8>>,
)
    requires
        is_subsequence(left, left_whole),
        is_subsequence(right, right_whole),
    ensures
        is_subsequence(left + right, left_whole + right_whole),
    decreases right_whole.len(),
{
    let whole = left_whole + right_whole;
    if right_whole.len() == 0 {
        assert(whole =~= left_whole);
        assert(left + right =~= left);
    } else {
        let rest = right_whole.drop_last();
        assert(whole.drop_last() =~= left_whole + rest);
        if right.len() == 0 || is_subsequence(right, rest) {
            lemma_joined_subsequences(left, left_whole, right, rest);
        } else {
            lemma_joined_subsequences(left, left_whole, right.drop_last(), rest);
            assert((left + right).drop_last() =~= left + right.drop_last());
        }
    }
}

/// The front of a part is a part too.
pub proof fn lemma_prefix_of_subsequence(
    front: Seq<Seq<u8>>,
    back: Seq<Seq<u8>>,
    whole: Seq<Seq<u8>>,
)
    requires
        is_subsequence(front + back, whole),
    ensures
        is_subsequence(front, whole),
{
    lemma_itself(front);
    lemma_joined_subsequences(front, front, Seq::empty(), back);
    assert(front + Seq::<Seq<u8>>::empty() =~= front);
    lemma_subsequence_is_transitive(front, front + back, whole);
}

/// A sequence is a part of itself.
proof fn lemma_itself(all: Seq<Seq<u8>>)
    ensures
        is_subsequence(all, all),
    decreases all.len(),
{
    if all.len() > 0 {
        lemma_itself(all.drop_last());
    }
}

} // verus!
