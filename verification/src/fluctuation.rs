//! Fixed-point threshold detector.
//!
//! Given a price series, a start index and a percentage threshold, decides
//! whether some later price first reached the reference price raised by the
//! threshold (an upward crossing) or lowered by it (a downward crossing).
//! Prices are unsigned integers scaled by a fixed number of decimal digits;
//! the threshold percentage carries its own decimal scale. All comparisons
//! are exact: they are carried out on integers after clearing denominators,
//! so no rounding can flip a boundary case.

use vstd::arithmetic::mul::lemma_mul_upper_bound;
use vstd::prelude::*;

verus! {

/// 10 raised to `n`.
pub open spec fn pow10(n: nat) -> nat
    decreases n,
{
    if n == 0 {
        1
    } else {
        10 * pow10((n - 1) as nat)
    }
}

/// Threshold units per whole reference price. A threshold percentage carries
/// `cd` fractional digits and a percent is a hundredth, so one whole
/// reference price spans `100 * 10^cd` threshold units.
pub open spec fn unit_scale(cd: nat) -> nat {
    100 * pow10(cd)
}

/// `p` lies at or above the reference `p0` raised by the threshold:
/// `p >= p0 * (1 + max_percentage / (100 * 10^cd))`, with denominators
/// cleared so that the comparison is exact.
pub open spec fn crosses_up(p0: u64, p: u64, max_percentage: u16, cd: nat) -> bool {
    p * unit_scale(cd) >= p0 * (unit_scale(cd) + max_percentage)
}

/// `p` lies at or below the reference `p0` lowered by the threshold:
/// `p <= p0 * (1 - max_percentage / (100 * 10^cd))`, with denominators
/// cleared. The threshold term is moved to the left so that nothing goes
/// negative when the percentage exceeds one hundred.
pub open spec fn crosses_down(p0: u64, p: u64, max_percentage: u16, cd: nat) -> bool {
    p * unit_scale(cd) + p0 * max_percentage <= p0 * unit_scale(cd)
}

/// The first position at or after `i` whose price crosses either band around
/// `p0`, with the direction of that crossing: `true` for up, `false` for
/// down. The up test runs first at each position, so a price meeting both
/// bands at once counts as an upward crossing.
pub open spec fn first_crossing_from(
    prices: Seq<u64>,
    p0: u64,
    i: int,
    max_percentage: u16,
    cd: nat,
) -> Option<(int, bool)>
    decreases prices.len() - i,
{
    if i < 0 || i >= prices.len() {
        None
    } else if crosses_up(p0, prices[i], max_percentage, cd) {
        Some((i, true))
    } else if crosses_down(p0, prices[i], max_percentage, cd) {
        Some((i, false))
    } else {
        first_crossing_from(prices, p0, i + 1, max_percentage, cd)
    }
}

/// What `check_price_fluctuation` returns: the direction of the first
/// threshold crossing after `start_index`, relative to the price at
/// `start_index`, or `None` when the start is out of bounds or no later
/// price crosses either band.
pub open spec fn spec_check_price_fluctuation(
    prices: Seq<u64>,
    start_index: int,
    max_percentage: u16,
    cd: nat,
) -> Option<bool> {
    if 0 <= start_index < prices.len() {
        match first_crossing_from(prices, prices[start_index], start_index + 1, max_percentage, cd) {
            Some(hit) => Some(hit.1),
            None => None,
        }
    } else {
        None
    }
}

pub proof fn lemma_pow10_pos(n: nat)
    ensures
        pow10(n) >= 1,
    decreases n,
{
    if n > 0 {
        lemma_pow10_pos((n - 1) as nat);
    }
}

pub proof fn lemma_pow10_mono(a: nat, b: nat)
    requires
        a <= b,
    ensures
        pow10(a) <= pow10(b),
    decreases b,
{
    if a < b {
        lemma_pow10_mono(a, (b - 1) as nat);
        lemma_pow10_pos((b - 1) as nat);
    }
}

proof fn lemma_pow10_17()
    ensures
        pow10(17) == 0x16345785D8A0000,
{
    reveal_with_fuel(pow10, 18);
}

/// `100 * 10^percentage_decimals` as a machine integer. The bound of 17 on
/// the exponent is what keeps the scale within `u64`.
fn scale_units(percentage_decimals: u8) -> (s: u64)
    requires
        percentage_decimals <= 17,
    ensures
        s == unit_scale(percentage_decimals as nat),
        s <= 10_000_000_000_000_000_000u64,
{
    let mut r: u64 = 1;
    let mut j: u8 = 0;
    while j < percentage_decimals
        invariant
            j <= percentage_decimals <= 17,
            r == pow10(j as nat),
        decreases percentage_decimals - j,
    {
        proof {
            lemma_pow10_mono(j as nat + 1, 17);
            lemma_pow10_17();
        }
        r = r * 10;
        j = j + 1;
    }
    proof {
        lemma_pow10_mono(percentage_decimals as nat, 17);
        lemma_pow10_17();
    }
    100 * r
}

/// Scans `prices[start_index + 1 ..]` in order for the first price that
/// reached the reference `prices[start_index]` raised or lowered by
/// `max_percentage` (a fixed-point percentage with `percentage_decimals`
/// fractional digits). Returns `Some(true)` for an upward crossing,
/// `Some(false)` for a downward one, `None` when the start index is out of
/// bounds or no crossing has happened yet.
///
/// Both the reference and the scanned price share the scale named by
/// `price_decimals`, so that common factor cancels out of the exact
/// comparisons and the parameter does not influence the outcome.
#[allow(unused_variables)]
pub fn check_price_fluctuation(
    prices: &Vec<u64>,
    start_index: usize,
    max_percentage: u16,
    price_decimals: u8,
    percentage_decimals: u8,
) -> (r: Option<bool>)
    requires
        percentage_decimals <= 17,
    ensures
        r == spec_check_price_fluctuation(
            prices@,
            start_index as int,
            max_percentage,
            percentage_decimals as nat,
        ),
{
    if start_index >= prices.len() {
        return None;
    }
    let p0: u64 = prices[start_index];
    let s: u64 = scale_units(percentage_decimals);
    proof {
        lemma_mul_upper_bound(p0 as int, u64::MAX as int, s as int + max_percentage as int,
            10_000_000_000_000_000_000int + u16::MAX as int);
        lemma_mul_upper_bound(p0 as int, u64::MAX as int, s as int,
            10_000_000_000_000_000_000int);
        lemma_mul_upper_bound(p0 as int, u64::MAX as int, max_percentage as int,
            u16::MAX as int);
    }
    let up_bound: u128 = (p0 as u128) * (s as u128 + max_percentage as u128);
    let down_bound: u128 = (p0 as u128) * (s as u128);
    let down_offset: u128 = (p0 as u128) * (max_percentage as u128);
    let ghost cd: nat = percentage_decimals as nat;
    let mut i: usize = start_index + 1;
    while i < prices.len()
        invariant
            cd == percentage_decimals as nat,
            start_index < i <= prices@.len(),
            p0 == prices@[start_index as int],
            s == unit_scale(cd),
            s <= 10_000_000_000_000_000_000u64,
            up_bound == p0 * (unit_scale(cd) + max_percentage),
            down_bound == p0 * unit_scale(cd),
            down_offset == p0 * max_percentage,
            down_offset <= 0x1_0000_0000_0000_0000_0000u128,
            first_crossing_from(prices@, p0, start_index + 1, max_percentage, cd)
                == first_crossing_from(prices@, p0, i as int, max_percentage, cd),
        decreases prices@.len() - i,
    {
        let p: u64 = prices[i];
        proof {
            lemma_mul_upper_bound(p as int, u64::MAX as int, s as int,
                10_000_000_000_000_000_000int);
        }
        let lhs: u128 = (p as u128) * (s as u128);
        if lhs >= up_bound {
            return Some(true);
        }
        if lhs + down_offset <= down_bound {
            return Some(false);
        }
        i = i + 1;
    }
    None
}

/// A detected crossing is stable under appending further prices: once the
/// scan of a prefix finds a crossing, neither its direction nor its
/// position changes when the series grows.
pub proof fn lemma_crossing_prefix_stable(
    prices: Seq<u64>,
    ext: Seq<u64>,
    start_index: int,
    max_percentage: u16,
    cd: nat,
)
    requires
        spec_check_price_fluctuation(prices, start_index, max_percentage, cd) is Some,
    ensures
        spec_check_price_fluctuation(prices + ext, start_index, max_percentage, cd)
            == spec_check_price_fluctuation(prices, start_index, max_percentage, cd),
        first_crossing_from(prices + ext, prices[start_index], start_index + 1, max_percentage, cd)
            == first_crossing_from(prices, prices[start_index], start_index + 1, max_percentage, cd),
{
    assert(0 <= start_index < prices.len());
    assert((prices + ext)[start_index] == prices[start_index]);
    lemma_first_crossing_extend(
        prices,
        prices + ext,
        prices[start_index],
        start_index + 1,
        max_percentage,
        cd,
    );
}

proof fn lemma_first_crossing_extend(
    p1: Seq<u64>,
    p2: Seq<u64>,
    p0: u64,
    i: int,
    max_percentage: u16,
    cd: nat,
)
    requires
        p1.len() <= p2.len(),
        forall|j: int| 0 <= j < p1.len() ==> p1[j] == p2[j],
        first_crossing_from(p1, p0, i, max_percentage, cd) is Some,
    ensures
        first_crossing_from(p2, p0, i, max_percentage, cd)
            == first_crossing_from(p1, p0, i, max_percentage, cd),
    decreases p1.len() - i,
{
    assert(0 <= i < p1.len());
    assert(p2[i] == p1[i]);
    if !crosses_up(p0, p1[i], max_percentage, cd) && !crosses_down(p0, p1[i], max_percentage, cd) {
        lemma_first_crossing_extend(p1, p2, p0, i + 1, max_percentage, cd);
    }
}

/// With a zero threshold both bands collapse onto the reference price, so
/// the very next price settles the outcome; and because the up test runs
/// first, a price exactly equal to the reference counts as an upward
/// crossing, never a downward one.
pub proof fn lemma_zero_threshold_up_precedence(prices: Seq<u64>, start_index: int, cd: nat)
    requires
        0 <= start_index,
        start_index + 1 < prices.len(),
    ensures
        spec_check_price_fluctuation(prices, start_index, 0u16, cd)
            == Some(prices[start_index + 1] >= prices[start_index]),
        prices[start_index + 1] == prices[start_index]
            ==> spec_check_price_fluctuation(prices, start_index, 0u16, cd) == Some(true),
{
    let p0 = prices[start_index];
    let p = prices[start_index + 1];
    let s = unit_scale(cd) as int;
    assert(s >= 100) by {
        lemma_pow10_pos(cd);
    }
    assert((p as int) * s >= (p0 as int) * s <==> p as int >= p0 as int) by (nonlinear_arith)
        requires
            s >= 1,
    ;
    assert((p as int) * s <= (p0 as int) * s <==> p as int <= p0 as int) by (nonlinear_arith)
        requires
            s >= 1,
    ;
    assert(crosses_up(p0, p, 0u16, cd) <==> p >= p0);
    assert(crosses_down(p0, p, 0u16, cd) <==> p <= p0);
}

} // verus!

