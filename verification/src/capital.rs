use crate::amount::U128_MAX;
use crate::error::{EclipseError, Result};
use crate::operators::{committed_sum, guarantee_available, lemma_committed_sum_nonneg, OperatorBook, OperatorProfile, RouteExposure};
use crate::text::push_str;
use vstd::prelude::*;

verus! {

/// Thresholds and stress factors of the capital model.
#[derive(Debug, Clone, Copy, PartialEq, Eq, Structural)]
pub struct CapitalPolicy {
    pub minimum_coverage_bps: u32,
    pub warning_coverage_bps: u32,
    pub maximum_utilization_bps: u32,
    pub exposure_addon_bps: u32,
    pub locked_capital_haircut_bps: u32,
}

pub open spec fn thresholds_consistent(p: CapitalPolicy) -> bool {
    &&& p.minimum_coverage_bps >= 10_000
    &&& p.warning_coverage_bps >= p.minimum_coverage_bps
    &&& p.warning_coverage_bps <= 1_000_000
}

pub open spec fn factors_in_range(p: CapitalPolicy) -> bool {
    &&& p.maximum_utilization_bps <= 10_000
    &&& p.exposure_addon_bps <= 10_000
    &&& p.locked_capital_haircut_bps <= 10_000
}

pub open spec fn policy_valid(p: CapitalPolicy) -> bool {
    thresholds_consistent(p) && factors_in_range(p)
}

/// `r` is the rejection of the invalid policy `p`, with the message that names its first fault.
pub open spec fn is_policy_rejection<T>(r: Result<T>, p: CapitalPolicy) -> bool {
    match r {
        Err(EclipseError::InvalidScenario(m)) => if !thresholds_consistent(p) {
            m@ == "capital coverage thresholds are inconsistent"@
        } else {
            m@ == "capital policy basis points exceed 10000"@
        },
        _ => false,
    }
}

impl Default for CapitalPolicy {
    fn default() -> (r: CapitalPolicy)
        ensures
            r == (CapitalPolicy {
                minimum_coverage_bps: 10_000,
                warning_coverage_bps: 12_000,
                maximum_utilization_bps: 8_500,
                exposure_addon_bps: 500,
                locked_capital_haircut_bps: 1_000,
            }),
    {
        CapitalPolicy {
            minimum_coverage_bps: 10_000,
            warning_coverage_bps: 12_000,
            maximum_utilization_bps: 8_500,
            exposure_addon_bps: 500,
            locked_capital_haircut_bps: 1_000,
        }
    }
}

impl CapitalPolicy {
    pub fn validate(&self) -> (r: Result<()>)
        ensures
            policy_valid(*self) ==> r is Ok,
            !policy_valid(*self) ==> is_policy_rejection(r, *self),
    {
        if self.minimum_coverage_bps < 10_000 || self.warning_coverage_bps < self.minimum_coverage_bps
            || self.warning_coverage_bps > 1_000_000
        {
            let mut m = String::new();
            push_str(&mut m, "capital coverage thresholds are inconsistent");
            return Err(EclipseError::InvalidScenario(m));
        }
        if self.maximum_utilization_bps > 10_000 || self.exposure_addon_bps > 10_000
            || self.locked_capital_haircut_bps > 10_000
        {
            let mut m = String::new();
            push_str(&mut m, "capital policy basis points exceed 10000");
            return Err(EclipseError::InvalidScenario(m));
        }
        Ok(())
    }
}

#[derive(Debug, Clone, Copy, PartialEq, Eq, Structural)]
pub enum CapitalBand {
    Healthy,
    Watch,
    Constrained,
    Exhausted,
}

/// `x` held to the 128-bit range, as a saturating operation leaves it.
pub open spec fn sat(x: int) -> int {
    if x > U128_MAX { U128_MAX as int } else { x }
}

/// `ceil(amount * bps / 10000)`.
pub open spec fn bps_ceil(amount: int, bps: int) -> int {
    (amount * bps + 9_999) / 10_000
}

/// The share `numerator / denominator` in basis points, capped at `cap`; an empty denominator
/// gives 0 for an empty numerator and the cap otherwise. The scaling saturates at 128 bits.
pub open spec fn ratio_bps_spec(numerator: u128, denominator: u128, cap: u32) -> u32 {
    if denominator == 0 {
        if numerator == 0 { 0 } else { cap }
    } else {
        let q = numerator as int / denominator as int;
        let rem = numerator as int % denominator as int;
        let scaled = sat(sat(q * 10_000) + sat(rem * 10_000) / denominator as int);
        (if scaled > cap { cap as int } else { scaled }) as u32
    }
}

/// Without saturation the share is the plain rounded-down quotient.
pub proof fn law_ratio_bps_exact(numerator: u128, denominator: u128, cap: u32)
    requires
        denominator > 0,
        numerator * 10_000 <= U128_MAX,
    ensures
        ratio_bps_spec(numerator, denominator, cap) as int
            == (if (numerator * 10_000) / (denominator as int) > cap { cap as int } else { (numerator * 10_000) / (denominator as int) }),
{
    let n = numerator as int;
    let d = denominator as int;
    let q = n / d;
    let rem = n % d;
    vstd::arithmetic::div_mod::lemma_fundamental_div_mod(n, d);
    assert(0 <= rem < d) by { vstd::arithmetic::div_mod::lemma_mod_bound(n, d); }
    assert(q >= 0) by { vstd::arithmetic::div_mod::lemma_div_pos_is_pos(n, d); }
    assert(n * 10_000 == (q * 10_000) * d + rem * 10_000) by (nonlinear_arith)
        requires n == d * q + rem;
    assert(q * 10_000 <= n * 10_000) by (nonlinear_arith)
        requires n == d * q + rem, d > 0, q >= 0, rem >= 0;
    assert(rem * 10_000 <= n * 10_000) by (nonlinear_arith)
        requires n == d * q + rem, d > 0, q >= 0, rem >= 0;
    vstd::arithmetic::div_mod::lemma_hoist_over_denominator(rem * 10_000, q * 10_000, d as nat);
    assert(rem * 10_000 / d <= rem * 10_000) by {
        vstd::arithmetic::div_mod::lemma_div_is_ordered_by_denominator(rem * 10_000, 1, d);
    }
}

/// The concentration index of `values` against `total`, before the cap.
pub open spec fn hhi_sum(values: Seq<u128>, total: u128) -> int
    decreases values.len(),
{
    if values.len() == 0 {
        0
    } else {
        let share = ratio_bps_spec(values.last(), total, 10_000) as int;
        hhi_sum(values.drop_last(), total) + (share * share) / 10_000
    }
}

pub open spec fn hhi_spec(values: Seq<u128>, total: u128) -> u32 {
    (if hhi_sum(values, total) > 10_000 { 10_000 } else { hhi_sum(values, total) }) as u32
}

/// The largest value, or 0 for none.
pub open spec fn seq_max(values: Seq<u128>) -> u128
    decreases values.len(),
{
    if values.len() == 0 {
        0
    } else if values.last() > seq_max(values.drop_last()) {
        values.last()
    } else {
        seq_max(values.drop_last())
    }
}

/// The route commitments that are above zero, in route order.
pub open spec fn positive_commitments(s: Seq<RouteExposure>) -> Seq<u128>
    decreases s.len(),
{
    if s.len() == 0 {
        Seq::empty()
    } else if s.last().cell.committed.0 > 0 {
        positive_commitments(s.drop_last()).push(s.last().cell.committed.0)
    } else {
        positive_commitments(s.drop_last())
    }
}

/// The exposure buckets of an operator: its non-zero route commitments and its external commitment.
pub open spec fn exposure_buckets(op: OperatorProfile) -> Seq<u128> {
    let routes = positive_commitments(op.exposure.by_route@);
    if op.exposure.external_commitment.0 > 0 { routes.push(op.exposure.external_commitment.0) } else { routes }
}

pub open spec fn classify_spec(effective: u128, stressed: u128, coverage: u32, utilization: u32, p: CapitalPolicy) -> CapitalBand {
    if effective == 0 && stressed > 0 {
        CapitalBand::Exhausted
    } else if coverage < p.minimum_coverage_bps || utilization >= 10_000 {
        CapitalBand::Constrained
    } else if coverage < p.warning_coverage_bps || utilization > p.maximum_utilization_bps {
        CapitalBand::Watch
    } else {
        CapitalBand::Healthy
    }
}

/// The bands from best to worst.
pub open spec fn band_rank(b: CapitalBand) -> int {
    match b {
        CapitalBand::Healthy => 0,
        CapitalBand::Watch => 1,
        CapitalBand::Constrained => 2,
        CapitalBand::Exhausted => 3,
    }
}

/// With the capital position held fixed, more coverage or less utilization never moves an operator
/// to a worse band; an operator is exhausted exactly when it has stressed exposure and no effective
/// capital.
pub proof fn law_band_monotone(effective: u128, stressed: u128, coverage_low: u32, coverage_high: u32,
    utilization_low: u32, utilization_high: u32, p: CapitalPolicy)
    requires
        policy_valid(p),
        coverage_low <= coverage_high,
        utilization_low <= utilization_high,
    ensures
        band_rank(classify_spec(effective, stressed, coverage_high, utilization_low, p))
            <= band_rank(classify_spec(effective, stressed, coverage_low, utilization_high, p)),
        (classify_spec(effective, stressed, coverage_low, utilization_high, p) == CapitalBand::Exhausted)
            <==> (effective == 0 && stressed > 0),
{
}

/// The capital position of one operator under stress.
#[derive(Debug, PartialEq, Eq)]
pub struct OperatorCapitalSnapshot {
    pub operator: String,
    pub pledged: u128,
    pub locked: u128,
    pub pending_release: u128,
    pub available: u128,
    pub route_exposure: u128,
    pub external_exposure: u128,
    pub recorded_exposure: u128,
    pub stressed_exposure: u128,
    pub effective_guarantee: u128,
    pub surplus: u128,
    pub shortfall: u128,
    pub coverage_bps: u32,
    pub utilization_bps: u32,
    pub largest_bucket_share_bps: u32,
    pub concentration_hhi_bps: u32,
    pub band: CapitalBand,
}

impl Clone for OperatorCapitalSnapshot {
    fn clone(&self) -> (r: Self)
        ensures
            r == *self,
    {
        OperatorCapitalSnapshot { operator: self.operator.clone(), ..*self }
    }
}

/// The snapshot of `op` under a valid policy `p`, or the overflow that stops it.
pub open spec fn snapshot_spec(op: OperatorProfile, p: CapitalPolicy) -> Result<OperatorCapitalSnapshot> {
    let pledged = op.guarantee.pledged.0;
    let locked = op.guarantee.locked.0;
    let route = committed_sum(op.exposure.by_route@);
    let external = op.exposure.external_commitment.0;
    let recorded = route + external;
    let addon = bps_ceil(recorded, p.exposure_addon_bps as int);
    let stressed = recorded + addon;
    let haircut = bps_ceil(locked as int, p.locked_capital_haircut_bps as int);
    if guarantee_available(op.guarantee) is Err {
        Err(guarantee_available(op.guarantee)->Err_0)
    } else if route > U128_MAX || recorded > U128_MAX || addon > U128_MAX || stressed > U128_MAX || haircut > U128_MAX {
        Err(EclipseError::AmountOverflow)
    } else {
        let effective = (if haircut > pledged { 0 } else { pledged - haircut }) as u128;
        let stressed = stressed as u128;
        let recorded = recorded as u128;
        let coverage = ratio_bps_spec(effective, stressed, 1_000_000);
        let utilization = ratio_bps_spec(locked, pledged, 10_000);
        let buckets = exposure_buckets(op);
        Ok(OperatorCapitalSnapshot {
            operator: op.id.0,
            pledged,
            locked,
            pending_release: op.guarantee.pending_release.0,
            available: guarantee_available(op.guarantee)->Ok_0.0,
            route_exposure: route as u128,
            external_exposure: external,
            recorded_exposure: recorded,
            stressed_exposure: stressed,
            effective_guarantee: effective,
            surplus: (if stressed > effective { 0 } else { effective - stressed }) as u128,
            shortfall: (if effective > stressed { 0 } else { stressed - effective }) as u128,
            coverage_bps: coverage,
            utilization_bps: utilization,
            largest_bucket_share_bps: ratio_bps_spec(seq_max(buckets), recorded, 10_000),
            concentration_hhi_bps: hhi_spec(buckets, recorded),
            band: classify_spec(effective, stressed, coverage, utilization, p),
        })
    }
}

/// `ceil(amount * bps / 10000)` without forming the full product.
fn mul_bps_ceil(amount: u128, bps: u32) -> (r: Result<u128>)
    ensures
        bps_ceil(amount as int, bps as int) <= U128_MAX ==> r == Ok::<u128, EclipseError>(bps_ceil(amount as int, bps as int) as u128),
        bps_ceil(amount as int, bps as int) > U128_MAX ==> r == Err::<u128, EclipseError>(EclipseError::AmountOverflow),
{
    let quotient = amount / 10_000;
    let remainder = amount % 10_000;
    let b = bps as u128;
    proof {
        let a = amount as int;
        let q = quotient as int;
        let rm = remainder as int;
        assert(a == 10_000 * q + rm);
        assert(a * b == (q * b) * 10_000 + rm * b) by (nonlinear_arith)
            requires a == 10_000 * q + rm;
        vstd::arithmetic::div_mod::lemma_hoist_over_denominator(rm * b + 9_999, q * b, 10_000);
        assert(bps_ceil(a, b as int) == (rm * b + 9_999) / 10_000 + q * b);
        assert(0 <= rm * b <= 9_999 * 4_294_967_295) by (nonlinear_arith)
            requires 0 <= rm < 10_000, 0 <= b <= 4_294_967_295;
        assert(0 <= q * b) by (nonlinear_arith) requires q >= 0, b >= 0;
        assert((rm * b + 9_999) / 10_000 >= 0) by {
            vstd::arithmetic::div_mod::lemma_div_pos_is_pos(rm * b + 9_999, 10_000);
        }
    }
    let whole = match quotient.checked_mul(b) {
        Some(v) => v,
        None => return Err(EclipseError::AmountOverflow),
    };
    let partial = remainder * b;
    let rounded = (partial + 9_999) / 10_000;
    if whole > U128_MAX - rounded {
        return Err(EclipseError::AmountOverflow);
    }
    Ok(whole + rounded)
}

pub(crate) fn saturating_mul(a: u128, b: u128) -> (r: u128)
    ensures
        r == sat(a * b),
{
    match a.checked_mul(b) {
        Some(v) => v,
        None => U128_MAX,
    }
}

fn ratio_bps(numerator: u128, denominator: u128, cap: u32) -> (r: u32)
    ensures
        r == ratio_bps_spec(numerator, denominator, cap),
{
    if denominator == 0 {
        return if numerator == 0 { 0 } else { cap };
    }
    let quotient = numerator / denominator;
    let remainder = numerator % denominator;
    let scaled = saturating_mul(quotient, 10_000).saturating_add(saturating_mul(remainder, 10_000) / denominator);
    if scaled > cap as u128 { cap } else { scaled as u32 }
}

fn concentration_hhi_bps(values: &[u128], total: u128) -> (r: u32)
    ensures
        r == hhi_spec(values@, total),
{
    let mut acc: u128 = 0;
    let mut i: usize = 0;
    while i < values.len()
        invariant
            i <= values@.len(),
            acc == hhi_sum(values@.take(i as int), total),
            acc <= 10_000 * i,
        decreases values.len() - i,
    {
        proof { assert(values@.take(i + 1).drop_last() == values@.take(i as int)); }
        let share = ratio_bps(values[i], total, 10_000) as u128;
        proof {
            assert(share * share <= 10_000 * 10_000) by (nonlinear_arith) requires share <= 10_000;
            assert(share * share >= 0) by (nonlinear_arith) requires share >= 0;
        }
        acc = acc + (share * share) / 10_000;
        i = i + 1;
    }
    proof { assert(values@.take(i as int) == values@); }
    if acc > 10_000 { 10_000 } else { acc as u32 }
}

fn classify(effective_guarantee: u128, stressed_exposure: u128, coverage_bps: u32, utilization_bps: u32, policy: &CapitalPolicy) -> (r: CapitalBand)
    ensures
        r == classify_spec(effective_guarantee, stressed_exposure, coverage_bps, utilization_bps, *policy),
{
    if effective_guarantee == 0 && stressed_exposure > 0 {
        CapitalBand::Exhausted
    } else if coverage_bps < policy.minimum_coverage_bps || utilization_bps >= 10_000 {
        CapitalBand::Constrained
    } else if coverage_bps < policy.warning_coverage_bps || utilization_bps > policy.maximum_utilization_bps {
        CapitalBand::Watch
    } else {
        CapitalBand::Healthy
    }
}

fn exposure_bucket_values(op: &OperatorProfile) -> (r: Vec<u128>)
    ensures
        r@ == exposure_buckets(*op),
{
    let routes = op.exposure.by_route.as_slice();
    let mut out: Vec<u128> = Vec::new();
    let mut i: usize = 0;
    while i < routes.len()
        invariant
            routes@ == op.exposure.by_route@,
            i <= routes@.len(),
            out@ == positive_commitments(routes@.take(i as int)),
        decreases routes.len() - i,
    {
        proof { assert(routes@.take(i + 1).drop_last() == routes@.take(i as int)); }
        let committed = routes[i].cell.committed.0;
        if committed > 0 {
            out.push(committed);
        }
        i = i + 1;
    }
    proof { assert(routes@.take(i as int) == routes@); }
    if op.exposure.external_commitment.0 > 0 {
        out.push(op.exposure.external_commitment.0);
    }
    out
}

fn max_value(values: &[u128]) -> (r: u128)
    ensures
        r == seq_max(values@),
{
    let mut best: u128 = 0;
    let mut i: usize = 0;
    while i < values.len()
        invariant
            i <= values@.len(),
            best == seq_max(values@.take(i as int)),
        decreases values.len() - i,
    {
        proof { assert(values@.take(i + 1).drop_last() == values@.take(i as int)); }
        if values[i] > best {
            best = values[i];
        }
        i = i + 1;
    }
    proof { assert(values@.take(i as int) == values@); }
    best
}

impl OperatorCapitalSnapshot {
    pub fn assess(operator: &OperatorProfile, policy: &CapitalPolicy) -> (r: Result<OperatorCapitalSnapshot>)
        ensures
            !policy_valid(*policy) ==> is_policy_rejection(r, *policy),
            policy_valid(*policy) ==> r == snapshot_spec(*operator, *policy),
    {
        policy.validate()?;
        let pledged = operator.guarantee.pledged.0;
        let locked = operator.guarantee.locked.0;
        let pending_release = operator.guarantee.pending_release.0;
        let available = operator.available_guarantee()?.0;
        let route_exposure = operator.exposure.total_route_exposure()?.0;
        proof { lemma_committed_sum_nonneg(operator.exposure.by_route@); }
        let external_exposure = operator.exposure.external_commitment.0;
        if route_exposure > U128_MAX - external_exposure {
            return Err(EclipseError::AmountOverflow);
        }
        let recorded_exposure = route_exposure + external_exposure;
        let addon = mul_bps_ceil(recorded_exposure, policy.exposure_addon_bps)?;
        proof {
            assert(addon >= 0);
        }
        if recorded_exposure > U128_MAX - addon {
            return Err(EclipseError::AmountOverflow);
        }
        let stressed_exposure = recorded_exposure + addon;
        let locked_haircut = mul_bps_ceil(locked, policy.locked_capital_haircut_bps)?;
        let effective_guarantee = pledged.saturating_sub(locked_haircut);
        let coverage_bps = ratio_bps(effective_guarantee, stressed_exposure, 1_000_000);
        let utilization_bps = ratio_bps(locked, pledged, 10_000);
        let buckets = exposure_bucket_values(operator);
        let largest_bucket = max_value(buckets.as_slice());
        let largest_bucket_share_bps = ratio_bps(largest_bucket, recorded_exposure, 10_000);
        let concentration_hhi_bps = concentration_hhi_bps(buckets.as_slice(), recorded_exposure);
        let surplus = effective_guarantee.saturating_sub(stressed_exposure);
        let shortfall = stressed_exposure.saturating_sub(effective_guarantee);
        let band = classify(effective_guarantee, stressed_exposure, coverage_bps, utilization_bps, policy);
        Ok(OperatorCapitalSnapshot {
            operator: operator.id.0.clone(),
            pledged,
            locked,
            pending_release,
            available,
            route_exposure,
            external_exposure,
            recorded_exposure,
            stressed_exposure,
            effective_guarantee,
            surplus,
            shortfall,
            coverage_bps,
            utilization_bps,
            largest_bucket_share_bps,
            concentration_hhi_bps,
            band,
        })
    }
}


/// The snapshots of `ops` in order, or the first failure.
pub open spec fn snapshots_spec(ops: Seq<OperatorProfile>, p: CapitalPolicy) -> Result<Seq<OperatorCapitalSnapshot>>
    decreases ops.len(),
{
    if ops.len() == 0 {
        Ok(Seq::empty())
    } else {
        match snapshots_spec(ops.drop_last(), p) {
            Err(e) => Err(e),
            Ok(s) => match snapshot_spec(ops.last(), p) {
                Err(e) => Err(e),
                Ok(x) => Ok(s.push(x)),
            },
        }
    }
}

pub open spec fn sum_u128(values: Seq<u128>) -> int
    decreases values.len(),
{
    if values.len() == 0 { 0 } else { sum_u128(values.drop_last()) + values.last() }
}

pub proof fn lemma_sum_u128_prefix(values: Seq<u128>, i: int)
    requires
        0 <= i <= values.len(),
    ensures
        0 <= sum_u128(values.take(i)) <= sum_u128(values),
    decreases values.len() - i,
{
    if i < values.len() {
        lemma_sum_u128_prefix(values, i + 1);
        assert(values.take(i + 1).drop_last() == values.take(i));
        lemma_sum_u128_nonneg(values.take(i));
    } else {
        assert(values.take(i) == values);
        lemma_sum_u128_nonneg(values);
    }
}

pub proof fn lemma_sum_u128_nonneg(values: Seq<u128>)
    ensures
        sum_u128(values) >= 0,
    decreases values.len(),
{
    if values.len() > 0 {
        lemma_sum_u128_nonneg(values.drop_last());
    }
}

fn checked_sum_u128(values: &[u128]) -> (r: Result<u128>)
    ensures
        sum_u128(values@) <= U128_MAX ==> r == Ok::<u128, EclipseError>(sum_u128(values@) as u128),
        sum_u128(values@) > U128_MAX ==> r == Err::<u128, EclipseError>(EclipseError::AmountOverflow),
{
    let mut acc: u128 = 0;
    let mut i: usize = 0;
    while i < values.len()
        invariant
            i <= values@.len(),
            acc == sum_u128(values@.take(i as int)),
        decreases values.len() - i,
    {
        proof {
            assert(values@.take(i + 1).drop_last() == values@.take(i as int));
            lemma_sum_u128_prefix(values@, i + 1);
        }
        if values[i] > U128_MAX - acc {
            return Err(EclipseError::AmountOverflow);
        }
        acc = acc + values[i];
        i = i + 1;
    }
    proof { assert(values@.take(i as int) == values@); }
    Ok(acc)
}

/// How many snapshots fall in `band`.
pub open spec fn band_count(s: Seq<OperatorCapitalSnapshot>, band: CapitalBand) -> nat
    decreases s.len(),
{
    if s.len() == 0 {
        0
    } else {
        band_count(s.drop_last(), band) + if s.last().band == band { 1nat } else { 0nat }
    }
}

fn count_band(operators: &[OperatorCapitalSnapshot], band: CapitalBand) -> (r: usize)
    ensures
        r == band_count(operators@, band),
{
    let mut n: usize = 0;
    let mut i: usize = 0;
    while i < operators.len()
        invariant
            i <= operators@.len(),
            n == band_count(operators@.take(i as int), band),
            n <= i,
        decreases operators.len() - i,
    {
        proof { assert(operators@.take(i + 1).drop_last() == operators@.take(i as int)); }
        if operators[i].band == band {
            n = n + 1;
        }
        i = i + 1;
    }
    proof { assert(operators@.take(i as int) == operators@); }
    n
}

pub open spec fn pledged_of(s: Seq<OperatorCapitalSnapshot>) -> Seq<u128> {
    s.map_values(|x: OperatorCapitalSnapshot| x.pledged)
}

pub open spec fn locked_of(s: Seq<OperatorCapitalSnapshot>) -> Seq<u128> {
    s.map_values(|x: OperatorCapitalSnapshot| x.locked)
}

pub open spec fn recorded_of(s: Seq<OperatorCapitalSnapshot>) -> Seq<u128> {
    s.map_values(|x: OperatorCapitalSnapshot| x.recorded_exposure)
}

pub open spec fn stressed_of(s: Seq<OperatorCapitalSnapshot>) -> Seq<u128> {
    s.map_values(|x: OperatorCapitalSnapshot| x.stressed_exposure)
}

pub open spec fn effective_of(s: Seq<OperatorCapitalSnapshot>) -> Seq<u128> {
    s.map_values(|x: OperatorCapitalSnapshot| x.effective_guarantee)
}

/// The values above zero, in order.
pub open spec fn positive_values(s: Seq<u128>) -> Seq<u128>
    decreases s.len(),
{
    if s.len() == 0 {
        Seq::empty()
    } else if s.last() > 0 {
        positive_values(s.drop_last()).push(s.last())
    } else {
        positive_values(s.drop_last())
    }
}

/// The capital position of the whole network.
#[derive(Debug, PartialEq, Eq)]
pub struct NetworkCapitalReport {
    pub operators: Vec<OperatorCapitalSnapshot>,
    pub total_pledged: u128,
    pub total_locked: u128,
    pub total_recorded_exposure: u128,
    pub total_stressed_exposure: u128,
    pub total_effective_guarantee: u128,
    pub total_surplus: u128,
    pub total_shortfall: u128,
    pub coverage_bps: u32,
    pub largest_operator_share_bps: u32,
    pub operator_concentration_hhi_bps: u32,
    pub healthy_operators: usize,
    pub watch_operators: usize,
    pub constrained_operators: usize,
    pub exhausted_operators: usize,
}

impl Clone for NetworkCapitalReport {
    /// A copy with the same snapshots and figures.
    fn clone(&self) -> (r: Self)
        ensures
            r.operators@ == self.operators@,
            r == (NetworkCapitalReport { operators: r.operators, ..*self }),
    {
        let mut operators: Vec<OperatorCapitalSnapshot> = Vec::new();
        let mut i: usize = 0;
        while i < self.operators.len()
            invariant
                i <= self.operators@.len(),
                operators@ == self.operators@.take(i as int),
            decreases self.operators@.len() - i,
        {
            operators.push(self.operators[i].clone());
            proof { assert(self.operators@.take(i + 1) == self.operators@.take(i as int).push(self.operators@[i as int])); }
            i = i + 1;
        }
        proof { assert(self.operators@.take(i as int) == self.operators@); }
        NetworkCapitalReport {
            operators,
            total_pledged: self.total_pledged,
            total_locked: self.total_locked,
            total_recorded_exposure: self.total_recorded_exposure,
            total_stressed_exposure: self.total_stressed_exposure,
            total_effective_guarantee: self.total_effective_guarantee,
            total_surplus: self.total_surplus,
            total_shortfall: self.total_shortfall,
            coverage_bps: self.coverage_bps,
            largest_operator_share_bps: self.largest_operator_share_bps,
            operator_concentration_hhi_bps: self.operator_concentration_hhi_bps,
            healthy_operators: self.healthy_operators,
            watch_operators: self.watch_operators,
            constrained_operators: self.constrained_operators,
            exhausted_operators: self.exhausted_operators,
        }
    }
}

/// The totals of `s` all fit in 128 bits.
pub open spec fn totals_fit(s: Seq<OperatorCapitalSnapshot>) -> bool {
    &&& sum_u128(pledged_of(s)) <= U128_MAX
    &&& sum_u128(locked_of(s)) <= U128_MAX
    &&& sum_u128(recorded_of(s)) <= U128_MAX
    &&& sum_u128(stressed_of(s)) <= U128_MAX
    &&& sum_u128(effective_of(s)) <= U128_MAX
}

/// `r` is the report that aggregates the snapshots `s`.
pub open spec fn is_report_of(r: NetworkCapitalReport, s: Seq<OperatorCapitalSnapshot>) -> bool {
    let effective = sum_u128(effective_of(s));
    let stressed = sum_u128(stressed_of(s));
    let exposures = positive_values(stressed_of(s));
    &&& r.operators@ == s
    &&& r.total_pledged == sum_u128(pledged_of(s))
    &&& r.total_locked == sum_u128(locked_of(s))
    &&& r.total_recorded_exposure == sum_u128(recorded_of(s))
    &&& r.total_stressed_exposure == stressed
    &&& r.total_effective_guarantee == effective
    &&& r.total_surplus == if stressed > effective { 0 } else { effective - stressed }
    &&& r.total_shortfall == if effective > stressed { 0 } else { stressed - effective }
    &&& r.coverage_bps == ratio_bps_spec(effective as u128, stressed as u128, 1_000_000)
    &&& r.largest_operator_share_bps == ratio_bps_spec(seq_max(exposures), stressed as u128, 10_000)
    &&& r.operator_concentration_hhi_bps == hhi_spec(exposures, stressed as u128)
    &&& r.healthy_operators == band_count(s, CapitalBand::Healthy)
    &&& r.watch_operators == band_count(s, CapitalBand::Watch)
    &&& r.constrained_operators == band_count(s, CapitalBand::Constrained)
    &&& r.exhausted_operators == band_count(s, CapitalBand::Exhausted)
}

fn field_values(s: &Vec<OperatorCapitalSnapshot>, which: u8) -> (r: Vec<u128>)
    requires
        which < 5,
    ensures
        which == 0 ==> r@ == pledged_of(s@),
        which == 1 ==> r@ == locked_of(s@),
        which == 2 ==> r@ == recorded_of(s@),
        which == 3 ==> r@ == stressed_of(s@),
        which == 4 ==> r@ == effective_of(s@),
{
    let mut out: Vec<u128> = Vec::new();
    let mut i: usize = 0;
    while i < s.len()
        invariant
            which < 5,
            i <= s@.len(),
            out@.len() == i,
            forall|j: int| 0 <= j < i ==> #[trigger] out@[j] == if which == 0 { s@[j].pledged } else if which == 1 { s@[j].locked }
                else if which == 2 { s@[j].recorded_exposure } else if which == 3 { s@[j].stressed_exposure }
                else { s@[j].effective_guarantee },
        decreases s.len() - i,
    {
        let v = if which == 0 { s[i].pledged } else if which == 1 { s[i].locked } else if which == 2 {
            s[i].recorded_exposure } else if which == 3 { s[i].stressed_exposure } else { s[i].effective_guarantee };
        out.push(v);
        i = i + 1;
    }
    proof {
        if which == 0 { assert(out@ =~= pledged_of(s@)); }
        if which == 1 { assert(out@ =~= locked_of(s@)); }
        if which == 2 { assert(out@ =~= recorded_of(s@)); }
        if which == 3 { assert(out@ =~= stressed_of(s@)); }
        if which == 4 { assert(out@ =~= effective_of(s@)); }
    }
    out
}

fn positive_only(values: &[u128]) -> (r: Vec<u128>)
    ensures
        r@ == positive_values(values@),
{
    let mut out: Vec<u128> = Vec::new();
    let mut i: usize = 0;
    while i < values.len()
        invariant
            i <= values@.len(),
            out@ == positive_values(values@.take(i as int)),
        decreases values.len() - i,
    {
        proof { assert(values@.take(i + 1).drop_last() == values@.take(i as int)); }
        if values[i] > 0 {
            out.push(values[i]);
        }
        i = i + 1;
    }
    proof { assert(values@.take(i as int) == values@); }
    out
}

impl NetworkCapitalReport {
    pub fn assess(book: &OperatorBook, policy: &CapitalPolicy) -> (r: Result<NetworkCapitalReport>)
        ensures
            !policy_valid(*policy) && book.entries().len() > 0 ==> is_policy_rejection(r, *policy),
            policy_valid(*policy) || book.entries().len() == 0 ==> ({
                let snaps = snapshots_spec(book.entries(), *policy);
                &&& snaps is Err ==> r == Err::<NetworkCapitalReport, EclipseError>(snaps->Err_0)
                &&& snaps is Ok && !totals_fit(snaps->Ok_0) ==> r == Err::<NetworkCapitalReport, EclipseError>(EclipseError::AmountOverflow)
                &&& snaps is Ok && totals_fit(snaps->Ok_0) ==> r is Ok && is_report_of(r->Ok_0, snaps->Ok_0)
            }),
    {
        let list = book.list();
        let mut operators: Vec<OperatorCapitalSnapshot> = Vec::new();
        let mut i: usize = 0;
        while i < list.len()
            invariant
                list@.len() == book.entries().len(),
                forall|j: int| 0 <= j < list@.len() ==> *#[trigger] list@[j] == book.entries()[j],
                i <= list@.len(),
                policy_valid(*policy) || i == 0,
                !policy_valid(*policy) ==> operators@.len() == 0,
                policy_valid(*policy) ==> snapshots_spec(book.entries().take(i as int), *policy) == Ok::<Seq<OperatorCapitalSnapshot>, EclipseError>(operators@),
            decreases list.len() - i,
        {
            proof { assert(book.entries().take(i + 1).drop_last() == book.entries().take(i as int)); }
            let snap = OperatorCapitalSnapshot::assess(list[i], policy);
            match snap {
                Ok(x) => operators.push(x),
                Err(e) => {
                    proof {
                        if policy_valid(*policy) {
                            let k = i + 1;
                            assert(snapshots_spec(book.entries().take(k as int), *policy) is Err);
                            Self::lemma_error_persists(book.entries(), *policy, k as int);
                        }
                    }
                    return Err(e);
                },
            }
            i = i + 1;
        }
        proof {
            assert(book.entries().take(i as int) == book.entries());
            if !policy_valid(*policy) {
                assert(book.entries().len() == 0);
                assert(operators@ =~= Seq::<OperatorCapitalSnapshot>::empty());
                assert(book.entries().take(0) == book.entries());
            }
            assert(snapshots_spec(book.entries(), *policy) == Ok::<Seq<OperatorCapitalSnapshot>, EclipseError>(operators@));
        }
        let pledged = field_values(&operators, 0);
        let locked = field_values(&operators, 1);
        let recorded = field_values(&operators, 2);
        let stressed = field_values(&operators, 3);
        let effective = field_values(&operators, 4);
        let total_pledged = checked_sum_u128(pledged.as_slice())?;
        let total_locked = checked_sum_u128(locked.as_slice())?;
        let total_recorded_exposure = checked_sum_u128(recorded.as_slice())?;
        let total_stressed_exposure = checked_sum_u128(stressed.as_slice())?;
        let total_effective_guarantee = checked_sum_u128(effective.as_slice())?;
        let total_surplus = total_effective_guarantee.saturating_sub(total_stressed_exposure);
        let total_shortfall = total_stressed_exposure.saturating_sub(total_effective_guarantee);
        let coverage_bps = ratio_bps(total_effective_guarantee, total_stressed_exposure, 1_000_000);
        let operator_exposures = positive_only(stressed.as_slice());
        let largest_operator = max_value(operator_exposures.as_slice());
        let largest_operator_share_bps = ratio_bps(largest_operator, total_stressed_exposure, 10_000);
        let operator_concentration_hhi_bps = concentration_hhi_bps(operator_exposures.as_slice(), total_stressed_exposure);
        let healthy_operators = count_band(operators.as_slice(), CapitalBand::Healthy);
        let watch_operators = count_band(operators.as_slice(), CapitalBand::Watch);
        let constrained_operators = count_band(operators.as_slice(), CapitalBand::Constrained);
        let exhausted_operators = count_band(operators.as_slice(), CapitalBand::Exhausted);
        let ghost snaps = operators@;
        proof {
            lemma_sum_u128_nonneg(pledged_of(snaps));
            lemma_sum_u128_nonneg(locked_of(snaps));
            lemma_sum_u128_nonneg(recorded_of(snaps));
            lemma_sum_u128_nonneg(stressed_of(snaps));
            lemma_sum_u128_nonneg(effective_of(snaps));
            assert(totals_fit(snaps));
            assert(total_effective_guarantee == sum_u128(effective_of(snaps)));
            assert(operator_exposures@ == positive_values(stressed_of(snaps)));
        }
        let report = NetworkCapitalReport {
            operators,
            total_pledged,
            total_locked,
            total_recorded_exposure,
            total_stressed_exposure,
            total_effective_guarantee,
            total_surplus,
            total_shortfall,
            coverage_bps,
            largest_operator_share_bps,
            operator_concentration_hhi_bps,
            healthy_operators,
            watch_operators,
            constrained_operators,
            exhausted_operators,
        };
        proof {
            assert(report.operators@ == snaps);
            assert(is_report_of(report, snaps));
        }
        Ok(report)
    }

    proof fn lemma_error_persists(ops: Seq<OperatorProfile>, p: CapitalPolicy, k: int)
        requires
            0 <= k <= ops.len(),
            snapshots_spec(ops.take(k), p) is Err,
        ensures
            snapshots_spec(ops, p) == snapshots_spec(ops.take(k), p),
        decreases ops.len() - k,
    {
        if k < ops.len() {
            assert(ops.take(k + 1).drop_last() == ops.take(k));
            Self::lemma_error_persists(ops, p, k + 1);
        } else {
            assert(ops.take(k) == ops);
        }
    }
}

/// A share of a numerator at least as large as its positive denominator is at least a whole
/// (10,000 basis points), up to the cap.
proof fn lemma_ratio_bps_at_least_whole(numerator: u128, denominator: u128, cap: u32)
    requires
        0 < denominator <= numerator,
    ensures
        ratio_bps_spec(numerator, denominator, cap) >= (if cap < 10_000 { cap as int } else { 10_000 }),
{
    let n = numerator as int;
    let d = denominator as int;
    let q = n / d;
    let rem = n % d;
    vstd::arithmetic::div_mod::lemma_div_is_ordered(d, n, d);
    vstd::arithmetic::div_mod::lemma_div_by_self(d);
    assert(q >= 1);
    vstd::arithmetic::div_mod::lemma_mod_bound(n, d);
    assert(rem * 10_000 >= 0) by (nonlinear_arith) requires rem >= 0;
    vstd::arithmetic::div_mod::lemma_div_pos_is_pos(rem * 10_000, d);
    assert(q * 10_000 >= 10_000) by (nonlinear_arith) requires q >= 1;
}

/// Every snapshot falls in exactly one band.
proof fn lemma_band_counts_total(s: Seq<OperatorCapitalSnapshot>)
    ensures
        band_count(s, CapitalBand::Healthy) + band_count(s, CapitalBand::Watch) + band_count(s, CapitalBand::Constrained)
            + band_count(s, CapitalBand::Exhausted) == s.len(),
    decreases s.len(),
{
    if s.len() > 0 {
        lemma_band_counts_total(s.drop_last());
    }
}

/// The network's coverage is its total effective guarantee over its total stressed exposure, in
/// basis points rounded down and capped at one hundred times: exactly that where the scaled total
/// fits in 128 bits, and at least a whole whenever the guarantee covers a positive exposure.
pub proof fn law_network_coverage(r: NetworkCapitalReport, s: Seq<OperatorCapitalSnapshot>)
    requires
        is_report_of(r, s),
        totals_fit(s),
    ensures
        r.total_stressed_exposure > 0 && r.total_effective_guarantee * 10_000 <= U128_MAX ==> r.coverage_bps as int == (if
            (r.total_effective_guarantee * 10_000) / (r.total_stressed_exposure as int) > 1_000_000 { 1_000_000 } else {
            (r.total_effective_guarantee * 10_000) / (r.total_stressed_exposure as int) }),
        0 < r.total_stressed_exposure <= r.total_effective_guarantee ==> r.coverage_bps >= 10_000,
        r.total_stressed_exposure == 0 ==> r.coverage_bps == (if r.total_effective_guarantee == 0 { 0u32 } else { 1_000_000u32 }),
        r.total_surplus == 0 || r.total_shortfall == 0,
        r.total_surplus - r.total_shortfall == r.total_effective_guarantee - r.total_stressed_exposure,
        r.healthy_operators + r.watch_operators + r.constrained_operators + r.exhausted_operators == r.operators@.len(),
{
    lemma_band_counts_total(s);
    let e = r.total_effective_guarantee;
    let st = r.total_stressed_exposure;
    assert(r.coverage_bps == ratio_bps_spec(e, st, 1_000_000));
    if st > 0 && e * 10_000 <= U128_MAX {
        law_ratio_bps_exact(e, st, 1_000_000);
    }
    if 0 < st <= e {
        lemma_ratio_bps_at_least_whole(e, st, 1_000_000);
    }
}

/// An operator's coverage is its effective guarantee over its stressed exposure and its utilization
/// is its locked guarantee over its pledge, each in basis points rounded down and capped (one
/// hundred times for coverage, a whole for utilization), wherever the scaled figure fits in 128
/// bits; an operator whose effective guarantee covers a positive stressed exposure has coverage of
/// at least a whole.
pub proof fn law_snapshot_ratios(op: OperatorProfile, p: CapitalPolicy)
    requires
        snapshot_spec(op, p) is Ok,
    ensures
        ({
            let snap = snapshot_spec(op, p)->Ok_0;
            let e = snap.effective_guarantee as int;
            let st = snap.stressed_exposure as int;
            let l = snap.locked as int;
            let pl = snap.pledged as int;
            &&& st > 0 && e * 10_000 <= U128_MAX ==> snap.coverage_bps as int
                == (if (e * 10_000) / st > 1_000_000 { 1_000_000 } else { (e * 10_000) / st })
            &&& 0 < st <= e ==> snap.coverage_bps >= 10_000
            &&& pl > 0 && l * 10_000 <= U128_MAX ==> snap.utilization_bps as int
                == (if (l * 10_000) / pl > 10_000 { 10_000 } else { (l * 10_000) / pl })
            &&& snap.utilization_bps <= 10_000
        }),
{
    let snap = snapshot_spec(op, p)->Ok_0;
    let e = snap.effective_guarantee;
    let st = snap.stressed_exposure;
    if st > 0 && e * 10_000 <= U128_MAX {
        law_ratio_bps_exact(e, st, 1_000_000);
    }
    if 0 < st <= e {
        lemma_ratio_bps_at_least_whole(e, st, 1_000_000);
    }
    if snap.pledged > 0 && snap.locked * 10_000 <= U128_MAX {
        law_ratio_bps_exact(snap.locked, snap.pledged, 10_000);
    }
}

/// An operator's band reads its position: it is exhausted exactly when it has stressed exposure and
/// no effective guarantee; otherwise coverage below the minimum or full utilization make it
/// constrained, and coverage below the warning level or utilization above the maximum make it at
/// least watched; only an operator within every threshold is healthy.
pub proof fn law_band_reads_position(op: OperatorProfile, p: CapitalPolicy)
    requires
        snapshot_spec(op, p) is Ok,
    ensures
        ({
            let snap = snapshot_spec(op, p)->Ok_0;
            let rank = band_rank(snap.band);
            &&& (snap.band == CapitalBand::Exhausted) <==> (snap.effective_guarantee == 0 && snap.stressed_exposure > 0)
            &&& snap.coverage_bps < p.minimum_coverage_bps || snap.utilization_bps >= 10_000 ==> rank >= 2
            &&& snap.coverage_bps < p.warning_coverage_bps || snap.utilization_bps > p.maximum_utilization_bps ==> rank >= 1
            &&& snap.band == CapitalBand::Healthy <==> !(snap.effective_guarantee == 0 && snap.stressed_exposure > 0)
                && snap.coverage_bps >= p.minimum_coverage_bps && snap.coverage_bps >= p.warning_coverage_bps
                && snap.utilization_bps < 10_000 && snap.utilization_bps <= p.maximum_utilization_bps
            &&& snap.band == CapitalBand::Watch ==> snap.coverage_bps < p.warning_coverage_bps
                || snap.utilization_bps > p.maximum_utilization_bps
        }),
{
}

/// Surplus and shortfall are never both positive, and their difference is effective minus stressed.
pub proof fn law_surplus_shortfall_exclusive(op: OperatorProfile, p: CapitalPolicy)
    requires
        snapshot_spec(op, p) is Ok,
    ensures
        snapshot_spec(op, p)->Ok_0.surplus == 0 || snapshot_spec(op, p)->Ok_0.shortfall == 0,
        snapshot_spec(op, p)->Ok_0.surplus - snapshot_spec(op, p)->Ok_0.shortfall
            == snapshot_spec(op, p)->Ok_0.effective_guarantee - snapshot_spec(op, p)->Ok_0.stressed_exposure,
        snapshot_spec(op, p)->Ok_0.stressed_exposure >= snapshot_spec(op, p)->Ok_0.recorded_exposure,
        snapshot_spec(op, p)->Ok_0.effective_guarantee <= snapshot_spec(op, p)->Ok_0.pledged,
{
    let s = snapshot_spec(op, p)->Ok_0;
    let recorded = committed_sum(op.exposure.by_route@) + op.exposure.external_commitment.0;
    lemma_committed_sum_nonneg(op.exposure.by_route@);
    assert(bps_ceil(recorded, p.exposure_addon_bps as int) >= 0) by {
        assert(recorded * p.exposure_addon_bps + 9_999 >= 0) by (nonlinear_arith)
            requires recorded >= 0, p.exposure_addon_bps >= 0;
        vstd::arithmetic::div_mod::lemma_div_pos_is_pos(recorded * p.exposure_addon_bps + 9_999, 10_000);
    }
}

} // verus!
