use vstd::prelude::*;
use crate::canonical::reversed;
use crate::shape::LtiError;

verus! {

/// The frequency-band transform applied to an analog prototype.
#[derive(Debug, Clone, Copy, PartialEq, Eq, Structural)]
pub enum FilterType {
    /// Passes frequencies below the cutoff; unity gain at DC.
    LowPass,
    /// Passes frequencies above the cutoff; unity gain at infinite frequency.
    HighPass,
}

/// The angle of pole `k` of the normalized Butterworth prototype of order
/// `n`, in units of `pi / (2 n)`: the angle is `pi / 2 + (2 k + 1) pi / (2 n)`.
pub open spec fn butterworth_angle(n: nat, k: int) -> int {
    n + 2 * k + 1
}

/// Coefficient of `s^k` in the reverse Bessel polynomial of degree `n`,
/// following the recurrence `theta_n = (2 n - 1) theta_(n-1) + s^2 theta_(n-2)`
/// from `theta_0 = 1` and `theta_1 = s + 1`.
pub open spec fn bessel_coeff(n: nat, k: int) -> int
    decreases n,
{
    if k < 0 || k > n {
        0
    } else if n <= 1 {
        1
    } else {
        (2 * n - 1) * bessel_coeff((n - 1) as nat, k) + bessel_coeff((n - 2) as nat, k - 2)
    }
}

/// Every coefficient of the reverse Bessel polynomials up to degree `n` fits
/// in a `u128`.
pub open spec fn bessel_fits(n: nat) -> bool {
    forall|m: nat, k: int| m <= n && 0 <= k <= m ==> #[trigger] bessel_coeff(m, k) <= u128::MAX
}

/// The pole angles of the normalized Butterworth prototype of order `order`,
/// each in units of `pi / (2 order)`: pole `k` lies on the unit circle at
/// angle `pi / 2 + (2 k + 1) pi / (2 order)`.
pub fn butterworth_pole_angles(order: usize) -> (r: Result<Vec<usize>, LtiError>)
    ensures
        match r {
            Ok(v) => {
                &&& 1 <= order
                &&& 3 * order <= usize::MAX
                &&& v.len() == order
                &&& forall|k: int| 0 <= k < order ==> #[trigger] v@[k] == butterworth_angle(order as nat, k)
            },
            Err(e) => {
                ||| (order == 0 && e == LtiError::ZeroOrder)
                ||| (order >= 1 && 3 * order > usize::MAX && e == LtiError::OrderTooLarge)
            },
        },
{
    if order == 0 {
        return Err(LtiError::ZeroOrder);
    }
    if order > usize::MAX / 3 {
        return Err(LtiError::OrderTooLarge);
    }
    let mut v: Vec<usize> = Vec::new();
    while v.len() < order
        invariant
            3 * order <= usize::MAX,
            v.len() <= order,
            forall|k: int| 0 <= k < v.len() ==> v@[k] == butterworth_angle(order as nat, k),
        decreases order - v.len(),
    {
        let k = v.len();
        v.push(order + 2 * k + 1);
    }
    Ok(v)
}

/// Every Butterworth prototype pole lies strictly in the left half-plane:
/// its angle is strictly between `pi / 2` and `3 pi / 2`.
pub proof fn lemma_butterworth_left_half_plane(n: nat, k: int)
    requires
        0 <= k < n,
    ensures
        n < butterworth_angle(n, k) < 3 * n,
{
}

/// The Butterworth prototype poles come in conjugate pairs: the angles of
/// poles `k` and `n - 1 - k` add up to `2 pi`.
pub proof fn lemma_butterworth_conjugate_pairs(n: nat, k: int)
    requires
        0 <= k < n,
    ensures
        butterworth_angle(n, k) + butterworth_angle(n, n - 1 - k) == 4 * n,
{
}

/// The Butterworth prototype of order `n` has `n` distinct poles.
pub proof fn lemma_butterworth_distinct(n: nat, j: int, k: int)
    requires
        0 <= j < n,
        0 <= k < n,
        j != k,
    ensures
        butterworth_angle(n, j) != butterworth_angle(n, k),
{
}

/// Every coefficient of a reverse Bessel polynomial is non-negative.
pub proof fn lemma_bessel_coeff_nonneg(n: nat, k: int)
    ensures
        bessel_coeff(n, k) >= 0,
    decreases n,
{
    if k < 0 || k > n || n <= 1 {
    } else {
        lemma_bessel_coeff_nonneg((n - 1) as nat, k);
        lemma_bessel_coeff_nonneg((n - 2) as nat, k - 2);
        let a = bessel_coeff((n - 1) as nat, k);
        assert((2 * n - 1) * a >= 0) by (nonlinear_arith)
            requires
                n >= 2,
                a >= 0,
        ;
    }
}

/// The reverse Bessel polynomial of degree `n` is monic: its coefficient of
/// `s^n` is 1, so it has exactly `n` roots, the prototype's poles.
pub proof fn lemma_bessel_monic(n: nat)
    ensures
        bessel_coeff(n, n as int) == 1,
    decreases n,
{
    if n >= 2 {
        lemma_bessel_monic((n - 2) as nat);
        assert(bessel_coeff((n - 1) as nat, n as int) == 0);
    }
}

/// The coefficients of the reverse Bessel polynomial of degree `order`,
/// highest degree first, computed by the three-term recurrence.
///
/// The coefficients grow quickly with the order; an order whose polynomials
/// have a coefficient that does not fit in a `u128` is rejected.
pub fn reverse_bessel_coefficients(order: usize) -> (r: Result<Vec<u128>, LtiError>)
    ensures
        match r {
            Ok(v) => {
                &&& 1 <= order
                &&& bessel_fits(order as nat)
                &&& v.len() == order + 1
                &&& forall|i: int|
                    0 <= i <= order ==> #[trigger] v@[i] as int == bessel_coeff(order as nat, order - i)
            },
            Err(e) => {
                ||| (order == 0 && e == LtiError::ZeroOrder)
                ||| (order >= 1 && !bessel_fits(order as nat) && e == LtiError::OrderTooLarge)
            },
        },
{
    if order == 0 {
        return Err(LtiError::ZeroOrder);
    }
    let mut prev2: Vec<u128> = vec![1];
    let mut prev1: Vec<u128> = vec![1, 1];
    let mut m: usize = 1;
    assert(bessel_fits(1)) by {
        assert forall|mm: nat, k: int| mm <= 1 && 0 <= k <= mm implies #[trigger] bessel_coeff(mm, k)
            <= u128::MAX by {}
    }
    while m < order
        invariant
            1 <= m <= order,
            prev1.len() == m + 1,
            prev2.len() == m,
            forall|k: int| 0 <= k <= m ==> prev1@[k] as int == bessel_coeff(m as nat, k),
            forall|k: int| 0 <= k < m ==> prev2@[k] as int == bessel_coeff((m - 1) as nat, k),
            bessel_fits(m as nat),
        decreases order - m,
    {
        let next = m + 1;
        let mult: u128 = 2 * (next as u128) - 1;
        let mut cur: Vec<u128> = Vec::new();
        while cur.len() < next
            invariant
                next == m + 1,
                1 <= m < order,
                mult == 2 * next - 1,
                prev1.len() == m + 1,
                prev2.len() == m,
                cur.len() <= next,
                forall|k: int| 0 <= k <= m ==> prev1@[k] as int == bessel_coeff(m as nat, k),
                forall|k: int| 0 <= k < m ==> prev2@[k] as int == bessel_coeff((m - 1) as nat, k),
                forall|k: int| 0 <= k < cur.len() ==> cur@[k] as int == bessel_coeff(next as nat, k),
                bessel_fits(m as nat),
            decreases next - cur.len(),
        {
            let k = cur.len();
            let a: u128 = prev1[k];
            let c: u128 = if k >= 2 {
                prev2[k - 2]
            } else {
                0
            };
            proof {
                assert(a as int == bessel_coeff(m as nat, k as int));
                assert(c as int == bessel_coeff((m - 1) as nat, k - 2));
                assert(((next - 1) as nat) == m as nat);
                assert(((next - 2) as nat) == (m - 1) as nat);
                assert(bessel_coeff(next as nat, k as int) == (2 * next - 1) * bessel_coeff(
                    (next - 1) as nat,
                    k as int,
                ) + bessel_coeff((next - 2) as nat, k - 2));
                assert(bessel_coeff(next as nat, k as int) == mult * a + c);
                lemma_bessel_coeff_nonneg((m - 1) as nat, k - 2);
            }
            match mult.checked_mul(a) {
                None => {
                    proof {
                        assert(mult * a + c > u128::MAX);
                        assert(bessel_coeff(next as nat, k as int) > u128::MAX);
                    }
                    return Err(LtiError::OrderTooLarge);
                },
                Some(p) => match p.checked_add(c) {
                    None => {
                        proof {
                            assert(bessel_coeff(next as nat, k as int) > u128::MAX);
                        }
                        return Err(LtiError::OrderTooLarge);
                    },
                    Some(x) => {
                        cur.push(x);
                    },
                },
            }
        }
        let top: u128 = prev2[m - 1];
        proof {
            assert(bessel_coeff(m as nat, next as int) == 0);
            assert(((next - 1) as nat) == m as nat);
            assert(((next - 2) as nat) == (m - 1) as nat);
            assert(bessel_coeff(next as nat, next as int) == (2 * next - 1) * bessel_coeff(
                (next - 1) as nat,
                next as int,
            ) + bessel_coeff((next - 2) as nat, next - 2));
            assert(bessel_coeff(next as nat, next as int) == bessel_coeff((m - 1) as nat, m - 1));
        }
        cur.push(top);
        assert(bessel_fits(next as nat)) by {
            assert forall|mm: nat, k: int| mm <= next && 0 <= k <= mm implies #[trigger] bessel_coeff(
                mm,
                k,
            ) <= u128::MAX by {
                if mm == next {
                    assert(cur@[k] as int == bessel_coeff(next as nat, k));
                }
            }
        }
        prev2 = prev1;
        prev1 = cur;
        m = next;
    }
    let v = reversed(&prev1);
    Ok(v)
}

} // verus!
