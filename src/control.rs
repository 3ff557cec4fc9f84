//! Loops over ranges and vectors.

use vstd::prelude::*;

verus! {

/// The product of the integers from `from` to `to`, both included; 1 for an
/// empty range.
pub open spec fn product(from: int, to: int) -> int
    decreases to + 1 - from,
{
    if to < from {
        1
    } else {
        product(from, to - 1) * to
    }
}

proof fn lemma_product_nonneg(from: int, to: int)
    requires
        0 <= from,
    ensures
        product(from, to) >= 0,
    decreases to + 1 - from,
{
    if to >= from {
        lemma_product_nonneg(from, to - 1);
        let p = product(from, to - 1);
        assert(p * to >= 0) by (nonlinear_arith)
            requires
                p >= 0,
                to >= 0,
        ;
    }
}

/// A product over a range grows with the end of the range.
proof fn lemma_product_grows(from: int, k: int, to: int)
    requires
        0 <= from <= k <= to,
    ensures
        product(from, k) <= product(from, to),
    decreases to - k,
{
    if k < to {
        lemma_product_grows(from, k, to - 1);
        lemma_product_nonneg(from, to - 1);
        let p = product(from, to - 1);
        assert(p <= p * to) by (nonlinear_arith)
            requires
                p >= 0,
                to >= 1,
        ;
    }
}

/// The product of the numbers from `from` to `to`, both included.
pub fn product_range(from: u32, to: u32) -> (r: u32)
    requires
        product(from as int, to as int) <= u32::MAX,
    ensures
        r == product(from as int, to as int),
{
    if from > to {
        return 1;
    }
    let mut acc: u32 = 1;
    let mut k: u32 = from;
    loop
        invariant
            from <= k <= to,
            acc == product(from as int, k - 1),
            product(from as int, to as int) <= u32::MAX,
        decreases to - k,
    {
        proof {
            lemma_product_grows(from as int, k as int, to as int);
        }
        acc = acc * k;
        if k == to {
            return acc;
        }
        k = k + 1;
    }
}

/// `k` is where the first zero of `s` stands, or the length of `s` where it
/// holds no zero.
pub open spec fn first_zero_at(s: Seq<u32>, k: int) -> bool {
    &&& 0 <= k <= s.len()
    &&& forall|j: int| 0 <= j < k ==> s[j] != 0
    &&& (k == s.len() || s[k] == 0)
}

/// The number just before the first zero of `numbers`, or the last number
/// where there is no zero; 0 when nothing comes before the first zero.
pub fn last_non_zero(numbers: Vec<u32>) -> (r: u32)
    ensures
        exists|k: int|
            #[trigger] first_zero_at(numbers@, k) && r == if k == 0 {
                0
            } else {
                numbers@[k - 1]
            },
{
    let mut last: u32 = 0;
    let mut i: usize = 0;
    while i < numbers.len()
        invariant
            i <= numbers@.len(),
            forall|j: int| 0 <= j < i ==> numbers@[j] != 0,
            last == if i == 0 {
                0
            } else {
                numbers@[i - 1]
            },
        decreases numbers@.len() - i,
    {
        if numbers[i] == 0 {
            assert(first_zero_at(numbers@, i as int));
            return last;
        }
        last = numbers[i];
        i = i + 1;
    }
    assert(first_zero_at(numbers@, i as int));
    last
}

} // verus!
