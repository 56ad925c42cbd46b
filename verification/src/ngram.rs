//! Jaccard similarity of character n-gram sets.

use vstd::prelude::*;
use vstd::seq_lib::*;
use vstd::set_lib::*;
use crate::distance::MAX_TEXT_BYTES;
use crate::score::Score;
use crate::text::same_chars;

verus! {

/// The stretches of `n` consecutive characters of a text, from left to right.
pub open spec fn windows(s: Seq<char>, n: nat) -> Seq<Seq<char>>
    recommends
        1 <= n <= s.len(),
{
    Seq::new((s.len() - n + 1) as nat, |i: int| s.subrange(i, i + n))
}

/// The set of the n-grams of a text.
pub open spec fn ngram_set(s: Seq<char>, n: nat) -> Set<Seq<char>> {
    windows(s, n).to_set()
}

/// The share of the n-grams of two texts that both have. Texts of which one
/// is shorter than `n` score one if they are equal and zero otherwise.
pub open spec fn ngram_similarity(a: Seq<char>, b: Seq<char>, n: nat) -> Score {
    if a.len() < n || b.len() < n {
        if a == b {
            Score::spec_one()
        } else {
            Score::spec_zero()
        }
    } else {
        Score::spec_ratio(
            ngram_set(a, n).intersect(ngram_set(b, n)).len(),
            ngram_set(a, n).union(ngram_set(b, n)).len(),
        )
    }
}

/// Whether the window of `a` at `i` equals the window of `b` at `j`.
fn window_equal(a: &Vec<char>, i: usize, b: &Vec<char>, j: usize, n: usize) -> (same: bool)
    requires
        i + n <= a.len(),
        j + n <= b.len(),
    ensures
        same == (a@.subrange(i as int, i + n) == b@.subrange(j as int, j + n)),
{
    let mut k: usize = 0;
    while k < n
        invariant
            k <= n,
            i + n <= a.len(),
            j + n <= b.len(),
            forall|t: int|
                0 <= t < k ==> #[trigger] a@.subrange(i as int, i + n)[t] == b@.subrange(
                    j as int,
                    j + n,
                )[t],
        decreases n - k,
    {
        if a[i + k] != b[j + k] {
            assert(a@.subrange(i as int, i + n)[k as int] != b@.subrange(
                j as int,
                j + n,
            )[k as int]);
            return false;
        }
        k += 1;
    }
    assert(a@.subrange(i as int, i + n) =~= b@.subrange(j as int, j + n));
    true
}

/// Whether the window of `a` at `i` is among the first `limit` windows of
/// `hay`.
fn window_occurs(hay: &Vec<char>, limit: usize, a: &Vec<char>, i: usize, n: usize) -> (found: bool)
    requires
        1 <= n,
        i + n <= a.len(),
        limit + n <= hay.len() + 1,
    ensures
        found == windows(hay@, n as nat).take(limit as int).contains(a@.subrange(i as int, i + n)),
{
    let ghost target = a@.subrange(i as int, i + n);
    let ghost list = windows(hay@, n as nat).take(limit as int);
    let mut j: usize = 0;
    while j < limit
        invariant
            1 <= n,
            j <= limit,
            i + n <= a.len(),
            limit + n <= hay.len() + 1,
            target == a@.subrange(i as int, i + n),
            list == windows(hay@, n as nat).take(limit as int),
            forall|t: int| 0 <= t < j ==> list[t] != target,
        decreases limit - j,
    {
        if window_equal(hay, j, a, i, n) {
            assert(list[j as int] == target);
            return true;
        }
        j += 1;
    }
    false
}

/// Counts the distinct n-grams of `a`, and those among them that `b` has too
/// where `b` is given.
fn count_ngrams(a: &Vec<char>, b: Option<&Vec<char>>, n: usize) -> (counts: (usize, usize))
    requires
        1 <= n <= a.len(),
        b matches Some(other) ==> n <= other.len(),
    ensures
        counts.0 == ngram_set(a@, n as nat).len(),
        b matches Some(other) ==> counts.1 == ngram_set(a@, n as nat).intersect(
            ngram_set(other@, n as nat),
        ).len(),
        counts.1 <= counts.0 <= a.len(),
{
    broadcast use {
        vstd::set::group_set_axioms,
        seq_to_set_is_finite,
        Seq::lemma_push_to_set_commute,
    };

    let total: usize = a.len() - n + 1;
    let ghost list = windows(a@, n as nat);
    let ghost other: Set<Seq<char>> = match b {
        Some(text) => ngram_set(text@, n as nat),
        None => Set::empty(),
    };
    let mut distinct: usize = 0;
    let mut shared: usize = 0;
    let mut i: usize = 0;
    proof {
        assert(list.take(0) =~= Seq::<Seq<char>>::empty());
        assert(list.take(0).to_set() =~= Set::<Seq<char>>::empty());
        assert(list.take(0).to_set().intersect(other) =~= Set::<Seq<char>>::empty());
    }
    while i < total
        invariant
            1 <= n <= a.len(),
            b matches Some(text) ==> n <= text.len(),
            total == a.len() - n + 1,
            list == windows(a@, n as nat),
            other == (match b {
                Some(text) => ngram_set(text@, n as nat),
                None => Set::empty(),
            }),
            i <= total,
            distinct == list.take(i as int).to_set().len(),
            shared == list.take(i as int).to_set().intersect(other).len(),
            shared <= distinct <= i,
        decreases total - i,
    {
        let ghost seen = list.take(i as int);
        let ghost window = list[i as int];
        proof {
            assert(list.take(i + 1) =~= seen.push(window));
            assert(window == a@.subrange(i as int, i + n));
            assert(windows(a@, n as nat).take(i as int) == seen);
        }
        let repeated = window_occurs(a, i, a, i, n);
        let in_other = !repeated && match b {
            Some(text) => {
                proof {
                    assert(windows(text@, n as nat).take(text.len() - n + 1) =~= windows(
                        text@,
                        n as nat,
                    ));
                }
                window_occurs(text, text.len() - n + 1, a, i, n)
            },
            None => false,
        };
        proof {
            let before = seen.to_set();
            let after = list.take(i + 1).to_set();
            seen.lemma_push_to_set_commute(window);
            assert(after == before.insert(window));
            assert(repeated == before.contains(window));
            assert(!repeated ==> in_other == other.contains(window));
            assert(before.finite());
            assert(before.intersect(other).finite());
            if repeated {
                assert(after =~= before);
            } else if in_other {
                assert(after.intersect(other) =~= before.intersect(other).insert(window));
            } else {
                assert(after.intersect(other) =~= before.intersect(other));
            }
        }
        if !repeated {
            distinct += 1;
            if in_other {
                shared += 1;
            }
        }
        i += 1;
    }
    proof {
        assert(list.take(total as int) =~= list);
    }
    (distinct, shared)
}

/// Scores two texts by the n-grams they share.
pub fn ngram_score(a: &Vec<char>, b: &Vec<char>, n: usize) -> (score: Score)
    requires
        1 <= n,
        a.len() <= MAX_TEXT_BYTES,
        b.len() <= MAX_TEXT_BYTES,
    ensures
        score == ngram_similarity(a@, b@, n as nat),
        score.wf(),
{
    if a.len() < n || b.len() < n {
        return Score::indicator(same_chars(a, b));
    }
    let (in_a, in_both) = count_ngrams(a, Some(b), n);
    let (in_b, _) = count_ngrams(b, None, n);
    proof {
        broadcast use {vstd::set::group_set_axioms, seq_to_set_is_finite};

        let left = ngram_set(a@, n as nat);
        let right = ngram_set(b@, n as nat);
        lemma_set_intersect_union_lens(left, right);
        assert(left + right == left.union(right));
        lemma_len_intersect(right, left);
        assert(right.intersect(left) =~= left.intersect(right));
        assert(windows(a@, n as nat)[0] == a@.subrange(0, n as int));
        assert(left.contains(a@.subrange(0, n as int)));
        assert(left.len() >= 1);
    }
    let in_either: usize = in_a + in_b - in_both;
    Score::ratio(in_both, in_either)
}

/// The score of two texts that are not too long is a proper fraction.
pub proof fn lemma_ngram_similarity_bounded(a: Seq<char>, b: Seq<char>, n: nat)
    requires
        1 <= n,
        a.len() <= MAX_TEXT_BYTES,
        b.len() <= MAX_TEXT_BYTES,
    ensures
        ngram_similarity(a, b, n).wf(),
{
    broadcast use {vstd::set::group_set_axioms, seq_to_set_is_finite};

    if a.len() >= n && b.len() >= n {
        let left = ngram_set(a, n);
        let right = ngram_set(b, n);
        windows(a, n).lemma_cardinality_of_set();
        windows(b, n).lemma_cardinality_of_set();
        lemma_len_union(left, right);
        lemma_len_intersect(left, right);
        lemma_len_subset(left, left.union(right));
        assert(windows(a, n)[0] == a.subrange(0, n as int));
        assert(left.contains(a.subrange(0, n as int)));
        assert(left.len() >= 1);
    }
}

/// The score is the same whichever text comes first.
pub proof fn lemma_ngram_similarity_symmetric(a: Seq<char>, b: Seq<char>, n: nat)
    ensures
        ngram_similarity(a, b, n) == ngram_similarity(b, a, n),
{
    let left = ngram_set(a, n);
    let right = ngram_set(b, n);
    assert(left.intersect(right) =~= right.intersect(left));
    assert(left.union(right) =~= right.union(left));
}

/// A text compared with itself scores one.
pub proof fn lemma_ngram_similarity_identity(a: Seq<char>, n: nat)
    requires
        1 <= n,
    ensures
        ngram_similarity(a, a, n).num == ngram_similarity(a, a, n).den,
{
    let set = ngram_set(a, n);
    assert(set.intersect(set) =~= set);
    assert(set.union(set) =~= set);
}

} // verus!
