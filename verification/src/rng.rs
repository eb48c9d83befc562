use vstd::prelude::*;
use rand::Rng;

verus! {

/// Relies on rand's `Rng::gen_range` over `0..n`: a draw from a non-empty
/// range is strictly below its end.
#[verifier::external_body]
pub(crate) fn rand_below(n: usize) -> (r: usize)
    requires
        n >= 1,
    ensures
        r < n,
{
    rand::thread_rng().gen_range(0..n)
}

/// Relies on rand's `Rng::gen_range` over `0..n`: a draw from a non-empty
/// range is strictly below its end.
#[verifier::external_body]
pub(crate) fn rand_below_u64(n: u64) -> (r: u64)
    requires
        n >= 1,
    ensures
        r < n,
{
    rand::thread_rng().gen_range(0..n)
}

/// Relies on rand's `Rng::gen_ratio`: `true` with probability `num/den`,
/// certainly `false` for `num == 0` and certainly `true` for `num == den`;
/// it panics unless `0 < den` and `num <= den`.
#[verifier::external_body]
pub(crate) fn rand_ratio(num: u32, den: u32) -> (r: bool)
    requires
        den >= 1,
        num <= den,
    ensures
        num == 0 ==> !r,
        num == den ==> r,
{
    rand::thread_rng().gen_ratio(num, den)
}

/// Relies on rand's `seq::index::sample`: exactly `amount` distinct indices
/// drawn from `0..length`; it panics when `amount > length`.
#[verifier::external_body]
pub(crate) fn sample_indices(length: usize, amount: usize) -> (r: Vec<usize>)
    requires
        amount <= length,
    ensures
        r@.len() == amount,
        forall|i: int| 0 <= i < r@.len() ==> (#[trigger] r@[i]) < length,
        forall|i: int, j: int| 0 <= i < j < r@.len() ==> r@[i] != r@[j],
{
    rand::seq::index::sample(&mut rand::thread_rng(), length, amount).into_vec()
}

/// Sum of a table of weights.
pub open spec fn sum_weights(s: Seq<u64>) -> int
    decreases s.len(),
{
    if s.len() == 0 {
        0
    } else {
        sum_weights(s.drop_last()) + s.last()
    }
}

pub proof fn lemma_sum_weights_prefix(s: Seq<u64>, i: int)
    requires
        0 <= i <= s.len(),
    ensures
        sum_weights(s.subrange(0, i)) <= sum_weights(s),
        0 <= sum_weights(s.subrange(0, i)),
    decreases s.len() - i,
{
    lemma_sum_weights_nonneg(s.subrange(0, i));
    if i == s.len() {
        assert(s.subrange(0, i) == s);
    } else {
        lemma_sum_weights_prefix(s, i + 1);
        assert(s.subrange(0, i + 1).drop_last() == s.subrange(0, i));
        assert(sum_weights(s.subrange(0, i + 1))
            == sum_weights(s.subrange(0, i)) + s[i]);
    }
}

pub proof fn lemma_sum_weights_nonneg(s: Seq<u64>)
    ensures
        0 <= sum_weights(s),
    decreases s.len(),
{
    if s.len() > 0 {
        lemma_sum_weights_nonneg(s.drop_last());
    }
}

/// Picks an index with probability proportional to its weight: one uniform
/// draw below the total weight, then a walk over cumulative weights. Returns
/// `None` exactly when the weights sum to zero; a chosen index always
/// carries a non-zero weight.
pub fn weighted_choice(weights: &Vec<u64>) -> (r: Option<usize>)
    requires
        sum_weights(weights@) <= u64::MAX,
    ensures
        match r {
            Some(i) => i < weights@.len() && weights@[i as int] > 0,
            None => sum_weights(weights@) == 0,
        },
{
    let n = weights.len();
    let mut total: u64 = 0;
    let mut i: usize = 0;
    while i < n
        invariant
            n == weights@.len(),
            i <= n,
            sum_weights(weights@) <= u64::MAX,
            total == sum_weights(weights@.subrange(0, i as int)),
        decreases n - i,
    {
        proof {
            lemma_sum_weights_prefix(weights@, i as int + 1);
            assert(weights@.subrange(0, i as int + 1).drop_last()
                == weights@.subrange(0, i as int));
        }
        total = total + weights[i];
        i += 1;
    }
    proof {
        assert(weights@.subrange(0, n as int) == weights@);
    }
    if total == 0 {
        return None;
    }
    let draw = rand_below_u64(total);
    let mut acc: u64 = 0;
    let mut i: usize = 0;
    while i < n
        invariant
            n == weights@.len(),
            i <= n,
            total == sum_weights(weights@),
            acc == sum_weights(weights@.subrange(0, i as int)),
            acc <= draw < total,
        decreases n - i,
    {
        proof {
            lemma_sum_weights_prefix(weights@, i as int + 1);
            assert(weights@.subrange(0, i as int + 1).drop_last()
                == weights@.subrange(0, i as int));
        }
        let w = weights[i];
        if draw < acc + w {
            return Some(i);
        }
        acc = acc + w;
        i += 1;
    }
    proof {
        assert(weights@.subrange(0, n as int) == weights@);
        assert(false);
    }
    None
}

} // verus!
