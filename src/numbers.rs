use vstd::prelude::*;

verus! {

/// The sum of the integers from zero to `n`.
pub open spec fn triangle(n: nat) -> nat
    decreases n,
{
    if n == 0 {
        0
    } else {
        n + triangle((n - 1) as nat)
    }
}

proof fn lemma_triangle_monotonic(i: nat, j: nat)
    requires
        i <= j,
    ensures
        triangle(i) <= triangle(j),
    decreases j - i,
{
    if i < j {
        lemma_triangle_monotonic(i, (j - 1) as nat);
    }
}

/// The sum is also `n * (n + 1) / 2`.
pub proof fn lemma_triangle_closed_form(n: nat)
    ensures
        2 * triangle(n) == n * (n + 1),
    decreases n,
{
    if n > 0 {
        let m = (n - 1) as nat;
        lemma_triangle_closed_form(m);
        assert(n * (n + 1) == m * (m + 1) + 2 * n) by (nonlinear_arith)
            requires
                m + 1 == n,
        ;
        assert(triangle(n) == n + triangle(m));
    } else {
        assert(n * (n + 1) == 0) by (nonlinear_arith)
            requires
                n == 0,
        ;
    }
}

/// Returns the greatest of `elems`, or `None` when there are none.
pub fn find_largest_element(elems: &Vec<i64>) -> (r: Option<i64>)
    ensures
        r is None <==> elems@.len() == 0,
        r matches Some(m) ==> elems@.contains(m) && forall|i: int|
            0 <= i < elems@.len() ==> #[trigger] elems@[i] <= m,
{
    if elems.len() == 0 {
        return None;
    }
    let mut best = elems[0];
    let mut i: usize = 1;
    while i < elems.len()
        invariant
            1 <= i <= elems@.len(),
            elems@.contains(best),
            forall|k: int| 0 <= k < i ==> #[trigger] elems@[k] <= best,
        decreases elems@.len() - i,
    {
        if elems[i] > best {
            best = elems[i];
        }
        i = i + 1;
    }
    Some(best)
}

/// Returns the sum of the integers from zero to `n`.
pub fn sum_one_to_n(n: u32) -> (r: u32)
    requires
        triangle(n as nat) <= u32::MAX,
    ensures
        r == triangle(n as nat),
{
    let mut sum: u32 = 0;
    let mut i: u32 = 0;
    while i < n
        invariant
            i <= n,
            sum == triangle(i as nat),
            triangle(n as nat) <= u32::MAX,
        decreases n - i,
    {
        proof {
            lemma_triangle_monotonic((i + 1) as nat, n as nat);
        }
        i = i + 1;
        sum = sum + i;
    }
    sum
}

} // verus!
