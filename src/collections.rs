//! Working with vectors: keeping a sorted vector sorted, and finding the
//! neighbours whose sum follows them.

use vstd::prelude::*;

verus! {

/// `s` is in increasing order, equal neighbours allowed.
pub open spec fn sorted(s: Seq<i64>) -> bool {
    forall|i: int, j: int| 0 <= i < j < s.len() ==> s[i] <= s[j]
}

/// Looks for `val` in the sorted vector `v`: `Ok` with a position that holds
/// it, or `Err` with the position where it would go to keep `v` sorted.
pub fn search_sorted(v: &Vec<i64>, val: i64) -> (r: Result<usize, usize>)
    requires
        sorted(v@),
    ensures
        match r {
            Ok(i) => i < v@.len() && v@[i as int] == val,
            Err(k) => insertion_point(v@, val, k as int),
        },
        r is Err <==> !v@.contains(val),
{
    let mut lo: usize = 0;
    let mut hi: usize = v.len();
    while lo < hi
        invariant
            sorted(v@),
            lo <= hi <= v@.len(),
            forall|j: int| 0 <= j < lo ==> v@[j] < val,
            forall|j: int| hi <= j < v@.len() ==> v@[j] > val,
        decreases hi - lo,
    {
        let mid = lo + (hi - lo) / 2;
        if v[mid] == val {
            return Ok(mid);
        } else if v[mid] < val {
            lo = mid + 1;
        } else {
            hi = mid;
        }
    }
    proof {
        if v@.contains(val) {
            let j = choose|j: int| 0 <= j < v@.len() && v@[j] == val;
            assert(v@[j] == val);
        }
    }
    Err(lo)
}

/// `k` is the position where `val` goes in `s`: after the smaller values,
/// before the greater ones.
pub open spec fn insertion_point(s: Seq<i64>, val: i64, k: int) -> bool {
    &&& 0 <= k <= s.len()
    &&& forall|j: int| 0 <= j < k ==> s[j] < val
    &&& forall|j: int| k <= j < s.len() ==> s[j] > val
}

/// Inserts `val` into the sorted vector `vec` where it keeps the order, unless
/// `vec` already holds it.
pub fn insert_at_right_place(vec: &mut Vec<i64>, val: i64)
    requires
        sorted(old(vec)@),
    ensures
        sorted(final(vec)@),
        old(vec)@.contains(val) ==> final(vec)@ == old(vec)@,
        !old(vec)@.contains(val) ==> exists|k: int|
            #[trigger] insertion_point(old(vec)@, val, k) && final(vec)@ == old(vec)@.insert(k, val),
{
    match search_sorted(vec, val) {
        Ok(_) => {},
        Err(k) => {
            vec.insert(k, val);
            proof {
                let s = old(vec)@;
                let t = final(vec)@;
                assert(t == s.insert(k as int, val));
                assert(insertion_point(s, val, k as int));
                assert forall|i: int, j: int| 0 <= i < j < t.len() implies t[i] <= t[j] by {
                    if j < k {
                        assert(t[i] == s[i] && t[j] == s[j]);
                    } else if j == k {
                        assert(t[i] == s[i]);
                    } else if i < k {
                        assert(t[i] == s[i] && t[j] == s[j - 1]);
                    } else if i == k {
                        assert(t[j] == s[j - 1]);
                    } else {
                        assert(t[i] == s[i - 1] && t[j] == s[j - 1]);
                    }
                }
            }
        },
    }
}

/// The pairs `(s[i], s[i + 1])` for each `i < n` such that `s[i + 2]` exists
/// and equals `s[i] + s[i + 1]`, in the order of `i`.
pub open spec fn sum_pairs(s: Seq<u64>, n: int) -> Seq<(u64, u64)>
    decreases n,
{
    if n <= 0 {
        seq![]
    } else {
        let i = n - 1;
        sum_pairs(s, i) + if i + 2 < s.len() && s[i] + s[i + 1] == s[i + 2] {
            seq![(s[i], s[i + 1])]
        } else {
            seq![]
        }
    }
}

/// The neighbours `(a, b)` directly followed by `a + b`, in order.
pub fn followed_by_sum(vec: Vec<u64>) -> (r: Vec<(u64, u64)>)
    ensures
        r@ == sum_pairs(vec@, vec@.len() as int),
{
    let mut out: Vec<(u64, u64)> = Vec::new();
    let n = vec.len();
    let mut i: usize = 0;
    while i < n
        invariant
            n == vec@.len(),
            i <= n,
            out@ == sum_pairs(vec@, i as int),
        decreases n - i,
    {
        if n - i > 2 && vec[i] <= vec[i + 2] && vec[i + 2] - vec[i] == vec[i + 1] {
            out.push((vec[i], vec[i + 1]));
        }
        proof {
            assert(out@ =~= sum_pairs(vec@, i + 1));
        }
        i = i + 1;
    }
    out
}

} // verus!
