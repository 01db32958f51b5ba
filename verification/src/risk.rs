use crate::accounts::AccountBook;
use crate::amount::{ceil_muldiv, floor_muldiv, mul_div_floor_result, Amount, BasisPoints, Ratio, U128_MAX};
use crate::asset::AssetBook;
use crate::error::{EclipseError, Result};
use crate::ids::{AccountId, AssetId, BatchId, OperatorId, RouteId};
use crate::operators::{guarantee_available, OperatorBook, OperatorProfile, OperatorStatus};
use crate::routes::{RouteBook, RoutePlan};
use crate::text::push_str;
use vstd::prelude::*;

verus! {

/// The limits that bid admission enforces.
#[derive(Debug, PartialEq, Eq)]
pub struct RiskConfig {
    pub min_guarantee_bps: BasisPoints,
    pub max_fee_bps: BasisPoints,
    pub max_route_hops: usize,
    pub min_operator_reliability_bps: BasisPoints,
    pub vault_account: AccountId,
    pub admission_clock_skew: u64,
}

impl Clone for RiskConfig {
    fn clone(&self) -> (r: Self)
        ensures
            r == *self,
    {
        RiskConfig { vault_account: self.vault_account.clone(), ..*self }
    }
}

impl RiskConfig {
    /// The default limits with the given vault account.
    pub fn with_vault(vault_account: AccountId) -> (r: RiskConfig)
        ensures
            r == (RiskConfig {
                min_guarantee_bps: BasisPoints(500),
                max_fee_bps: BasisPoints(750),
                max_route_hops: 4,
                min_operator_reliability_bps: BasisPoints(7_500),
                vault_account,
                admission_clock_skew: 30,
            }),
    {
        RiskConfig {
            min_guarantee_bps: BasisPoints(500),
            max_fee_bps: BasisPoints(750),
            max_route_hops: 4,
            min_operator_reliability_bps: BasisPoints(7_500),
            vault_account,
            admission_clock_skew: 30,
        }
    }
}

impl Default for RiskConfig {
    fn default() -> (r: RiskConfig)
        ensures
            r.min_guarantee_bps.0 == 500,
            r.max_fee_bps.0 == 750,
            r.max_route_hops == 4,
            r.min_operator_reliability_bps.0 == 7_500,
            r.vault_account@ == "vault"@,
            r.admission_clock_skew == 30,
    {
        RiskConfig::with_vault(AccountId::new("vault"))
    }
}

/// The liquidity and guarantee figures behind an admission decision.
#[derive(Debug, PartialEq, Eq)]
pub struct LiquiditySnapshot {
    pub batch: BatchId,
    pub route: RouteId,
    pub operator: OperatorId,
    pub target_asset: AssetId,
    pub vault_available: u128,
    pub operator_available_guarantee: u128,
    pub required_guarantee: u128,
    pub projected_gross_out: u128,
    pub projected_net_out: u128,
    pub timestamp: u64,
}

/// The signed difference `a - b` of two amounts read as `i128`, as Rust's `as` reads them.
pub open spec fn signed_gap(a: u128, b: u128) -> int {
    (a as i128) - (b as i128)
}

impl LiquiditySnapshot {
    pub fn guarantee_margin(&self) -> (r: i128)
        requires
            i128::MIN <= signed_gap(self.operator_available_guarantee, self.required_guarantee) <= i128::MAX,
        ensures
            r == signed_gap(self.operator_available_guarantee, self.required_guarantee),
    {
        self.operator_available_guarantee as i128 - self.required_guarantee as i128
    }

    pub fn vault_margin(&self) -> (r: i128)
        requires
            i128::MIN <= signed_gap(self.vault_available, self.projected_gross_out) <= i128::MAX,
        ensures
            r == signed_gap(self.vault_available, self.projected_gross_out),
    {
        self.vault_available as i128 - self.projected_gross_out as i128
    }
}

/// The decision on a bid, with the figures it rests on.
#[derive(Debug, PartialEq, Eq)]
pub struct RiskAssessment {
    pub admitted: bool,
    pub reason: String,
    pub snapshot: LiquiditySnapshot,
    pub score_penalty: i128,
}

impl Clone for LiquiditySnapshot {
    fn clone(&self) -> (r: Self)
        ensures
            r == *self,
    {
        LiquiditySnapshot {
            batch: self.batch.clone(),
            route: self.route.clone(),
            operator: self.operator.clone(),
            target_asset: self.target_asset.clone(),
            vault_available: self.vault_available,
            operator_available_guarantee: self.operator_available_guarantee,
            required_guarantee: self.required_guarantee,
            projected_gross_out: self.projected_gross_out,
            projected_net_out: self.projected_net_out,
            timestamp: self.timestamp,
        }
    }
}

impl Clone for RiskAssessment {
    fn clone(&self) -> (r: Self)
        ensures
            r == *self,
    {
        RiskAssessment {
            admitted: self.admitted,
            reason: self.reason.clone(),
            snapshot: self.snapshot.clone(),
            score_penalty: self.score_penalty,
        }
    }
}

pub const REJECTED_PENALTY: i128 = -42535295865117307932921825928971026432i128;

impl RiskAssessment {
    pub fn admitted(snapshot: LiquiditySnapshot, score_penalty: i128) -> (r: RiskAssessment)
        ensures
            r.admitted,
            r.reason@ == "admitted"@,
            r.snapshot == snapshot,
            r.score_penalty == score_penalty,
    {
        let mut reason = String::new();
        push_str(&mut reason, "admitted");
        RiskAssessment { admitted: true, reason, snapshot, score_penalty }
    }

    pub fn rejected(snapshot: LiquiditySnapshot, reason: &str) -> (r: RiskAssessment)
        ensures
            !r.admitted,
            r.reason@ == reason@,
            r.snapshot == snapshot,
            r.score_penalty == REJECTED_PENALTY,
            r.score_penalty == i128::MIN / 4,
    {
        RiskAssessment { admitted: false, reason: reason.to_owned(), snapshot, score_penalty: REJECTED_PENALTY }
    }
}

/// The guarantee share applied to a bid: the largest of the configured floor, the route's floor
/// and the bid's own.
pub open spec fn selected_guarantee_bps(config_bps: u32, route_bps: u32, bid_bps: u32) -> u32 {
    let floor = if config_bps >= route_bps { config_bps } else { route_bps };
    if floor >= bid_bps { floor } else { bid_bps }
}

pub open spec fn required_guarantee_result(gross_out: Amount, bps: u32) -> Result<Amount> {
    if bps > 10_000 {
        Err(EclipseError::InvalidBasisPoints(bps))
    } else if gross_out.0 * bps + 9_999 > U128_MAX {
        Err(EclipseError::AmountOverflow)
    } else {
        Ok(Amount(ceil_muldiv(gross_out.0, bps as u128, 10_000) as u128))
    }
}

pub open spec fn penalty_spec(hops: int, reliability_bps: u32, fee_bps: u32, guarantee_bps: u32) -> int {
    (fee_bps as int) * 8 + hops * 10 - (reliability_bps as int) / 25 - (guarantee_bps as int) / 20
}

/// The figures an admission computes once every precondition holds: gross, net, required guarantee,
/// available guarantee and vault balance, or the first error among them.
pub open spec fn bid_figures(config: RiskConfig, route: RoutePlan, op: OperatorProfile, amount_in: Amount, price: Ratio,
    fee_bps: BasisPoints, guarantee_bps: BasisPoints, accounts: AccountBook) -> Result<(u128, u128, u128, u128, u128)> {
    let gross = mul_div_floor_result(amount_in, price.numerator, price.denominator);
    let bps = selected_guarantee_bps(config.min_guarantee_bps.0, route.guarantee_bps_floor.0, guarantee_bps.0);
    if gross is Err {
        Err(gross->Err_0)
    } else if gross->Ok_0.0 * fee_bps.0 > U128_MAX {
        Err(EclipseError::AmountOverflow)
    } else if floor_muldiv(gross->Ok_0.0, fee_bps.0 as u128, 10_000) > gross->Ok_0.0 {
        Err(EclipseError::AmountUnderflow)
    } else if required_guarantee_result(gross->Ok_0, bps) is Err {
        Err(required_guarantee_result(gross->Ok_0, bps)->Err_0)
    } else if guarantee_available(op.guarantee) is Err {
        Err(guarantee_available(op.guarantee)->Err_0)
    } else if !accounts.map().dom().contains(config.vault_account@) {
        Err(EclipseError::AccountNotFound(config.vault_account.0))
    } else {
        let g = gross->Ok_0.0;
        Ok((g, (g - floor_muldiv(g, fee_bps.0 as u128, 10_000)) as u128,
            required_guarantee_result(gross->Ok_0, bps)->Ok_0.0,
            guarantee_available(op.guarantee)->Ok_0.0,
            accounts.map()[config.vault_account@].cell_of(route.target@).available.0))
    }
}

/// The reason for rejecting a bid with these figures, or none when it is admitted.
pub open spec fn rejection_reason(config: RiskConfig, route: RoutePlan, op: OperatorProfile, fee_bps: BasisPoints,
    figures: (u128, u128, u128, u128, u128)) -> Option<Seq<char>> {
    let (gross, net, required, available, vault) = figures;
    if route.legs@.len() > config.max_route_hops {
        Some("route hop limit"@)
    } else if fee_bps.0 > config.max_fee_bps.0 {
        Some("fee limit"@)
    } else if op.reliability_bps.0 < config.min_operator_reliability_bps.0 {
        Some("operator reliability"@)
    } else if gross < route.liquidity_floor.0 {
        Some("route liquidity floor"@)
    } else if vault < gross {
        Some("vault liquidity"@)
    } else if available < required {
        Some("operator guarantee"@)
    } else {
        None
    }
}

/// Applies the admission rules of a risk configuration.
#[derive(Debug)]
pub struct RiskEngine {
    pub config: RiskConfig,
}

impl Clone for RiskEngine {
    fn clone(&self) -> (r: Self)
        ensures
            r == *self,
    {
        RiskEngine { config: self.config.clone() }
    }
}

impl RiskEngine {
    pub fn new(config: RiskConfig) -> (r: RiskEngine)
        ensures
            r.config == config,
    {
        RiskEngine { config }
    }

    pub fn default_with_vault(vault_account: AccountId) -> (r: RiskEngine)
        ensures
            r.config == RiskConfig::with_vault_spec(vault_account),
    {
        RiskEngine { config: RiskConfig::with_vault(vault_account) }
    }

    pub fn required_guarantee(&self, gross_out: Amount, route: &RoutePlan, bid_guarantee_bps: BasisPoints) -> (r: Result<Amount>)
        ensures
            r == required_guarantee_result(gross_out,
                selected_guarantee_bps(self.config.min_guarantee_bps.0, route.guarantee_bps_floor.0, bid_guarantee_bps.0)),
    {
        let a = self.config.min_guarantee_bps.raw();
        let b = route.guarantee_bps_floor.raw();
        let floor = if a >= b { a } else { b };
        let c = bid_guarantee_bps.raw();
        let selected = if floor >= c { floor } else { c };
        BasisPoints::new(selected)?.checked_amount_ceil(gross_out)
    }

    fn ensure_operator(&self, operator: &OperatorProfile) -> (r: Result<()>)
        ensures
            operator.status == OperatorStatus::Active ==> r is Ok,
            operator.status != OperatorStatus::Active ==> r == Err::<(), EclipseError>(EclipseError::OperatorUnavailable(operator.id.0)),
    {
        if operator.can_bid() {
            Ok(())
        } else {
            Err(EclipseError::OperatorUnavailable(operator.id.0.clone()))
        }
    }

    fn score_penalty(&self, route: &RoutePlan, operator: &OperatorProfile, fee_bps: BasisPoints, guarantee_bps: BasisPoints) -> (r: i128)
        ensures
            r == penalty_spec(route.legs@.len() as int, operator.reliability_bps.0, fee_bps.0, guarantee_bps.0),
    {
        let fee_penalty = fee_bps.raw() as i128 * 8;
        let hop_penalty = route.hops() as i128 * 10;
        let reliability_bonus = operator.reliability_bps.raw() as i128 / 25;
        let guarantee_bonus = guarantee_bps.raw() as i128 / 20;
        fee_penalty + hop_penalty - reliability_bonus - guarantee_bonus
    }
}

impl RiskEngine {
    /// Decides whether a bid is admitted: the route and operator must exist, the route's assets be
    /// enabled, the route enabled, the operator active and the route able to quote the input; then
    /// the bid is measured against the configured limits.
    pub fn assess_bid(
        &self,
        batch: &BatchId,
        route_id: &RouteId,
        operator_id: &OperatorId,
        amount_in: Amount,
        price: Ratio,
        fee_bps: BasisPoints,
        guarantee_bps: BasisPoints,
        now: u64,
        assets: &AssetBook,
        accounts: &AccountBook,
        operators: &OperatorBook,
        routes: &RouteBook,
    ) -> (r: Result<RiskAssessment>)
        requires
            assets.wf(),
            accounts.wf(),
            operators.wf(),
            routes.wf(),
        ensures
            !routes.map().dom().contains(route_id@)
                ==> r == Err::<RiskAssessment, EclipseError>(EclipseError::RouteNotFound(route_id.0)),
            routes.map().dom().contains(route_id@) && !operators.map().dom().contains(operator_id@)
                ==> r == Err::<RiskAssessment, EclipseError>(EclipseError::OperatorNotFound(operator_id.0)),
            routes.map().dom().contains(route_id@) && operators.map().dom().contains(operator_id@)
                ==> admission_outcome(self.config, *batch, *route_id, *operator_id, amount_in, price, fee_bps,
                    guarantee_bps, now, *assets, *accounts, routes.map()[route_id@], operators.map()[operator_id@], r),
    {
        let route = routes.get(route_id)?;
        let operator = operators.get(operator_id)?;
        route.ensure_assets(assets)?;
        route.ensure_enabled()?;
        self.ensure_operator(operator)?;
        route.quote(amount_in)?;
        let gross_out = price.apply_floor(amount_in)?;
        let fee = fee_bps.checked_amount_floor(gross_out)?;
        let net_out = gross_out.checked_sub(fee)?;
        let required = self.required_guarantee(gross_out, route, guarantee_bps)?;
        let available_guarantee = operator.available_guarantee()?;
        let vault_available = accounts.balance(&self.config.vault_account, &route.target)?;
        let snapshot = LiquiditySnapshot {
            batch: batch.clone(),
            route: route_id.clone(),
            operator: operator_id.clone(),
            target_asset: route.target.clone(),
            vault_available: vault_available.raw(),
            operator_available_guarantee: available_guarantee.raw(),
            required_guarantee: required.raw(),
            projected_gross_out: gross_out.raw(),
            projected_net_out: net_out.raw(),
            timestamp: now,
        };
        if route.hops() > self.config.max_route_hops {
            return Ok(RiskAssessment::rejected(snapshot, "route hop limit"));
        }
        if fee_bps.raw() > self.config.max_fee_bps.raw() {
            return Ok(RiskAssessment::rejected(snapshot, "fee limit"));
        }
        if operator.reliability_bps.raw() < self.config.min_operator_reliability_bps.raw() {
            return Ok(RiskAssessment::rejected(snapshot, "operator reliability"));
        }
        if gross_out.0 < route.liquidity_floor.0 {
            return Ok(RiskAssessment::rejected(snapshot, "route liquidity floor"));
        }
        if vault_available.0 < gross_out.0 {
            return Ok(RiskAssessment::rejected(snapshot, "vault liquidity"));
        }
        if available_guarantee.0 < required.0 {
            return Ok(RiskAssessment::rejected(snapshot, "operator guarantee"));
        }
        let penalty = self.score_penalty(route, operator, fee_bps, guarantee_bps);
        Ok(RiskAssessment::admitted(snapshot, penalty))
    }

    /// Checks, before a settlement moves funds, that the net output meets the bid's floor and that
    /// the vault holds the gross output in the route's target asset.
    pub fn preflight_settlement(&self, route: &RoutePlan, accounts: &AccountBook, gross_out: Amount, min_out: Amount,
        net_out: Amount) -> (r: Result<()>)
        requires
            accounts.wf(),
        ensures
            r == preflight_result(self.config, *route, *accounts, gross_out, min_out, net_out),
    {
        if net_out.0 < min_out.0 {
            return Err(EclipseError::SettlementFloor { net: net_out.raw(), minimum: min_out.raw() });
        }
        let vault_available = accounts.balance(&self.config.vault_account, &route.target)?;
        if vault_available.0 < gross_out.0 {
            return Err(EclipseError::InsufficientBalance {
                account: self.config.vault_account.0.clone(),
                asset: route.target.0.clone(),
                available: vault_available.raw(),
                needed: gross_out.raw(),
            });
        }
        Ok(())
    }
}

/// The figures an admission records.
pub open spec fn snapshot_spec(batch: BatchId, route_id: RouteId, operator_id: OperatorId, route: RoutePlan, now: u64,
    figures: (u128, u128, u128, u128, u128)) -> LiquiditySnapshot {
    let (gross, net, required, available, vault) = figures;
    LiquiditySnapshot {
        batch,
        route: route_id,
        operator: operator_id,
        target_asset: route.target,
        vault_available: vault,
        operator_available_guarantee: available,
        required_guarantee: required,
        projected_gross_out: gross,
        projected_net_out: net,
        timestamp: now,
    }
}

/// `a` is the decision on a bid with these figures: a rejection with the first limit it breaks, or
/// an admission with its score penalty.
pub open spec fn is_assessment_of(a: RiskAssessment, config: RiskConfig, route: RoutePlan, op: OperatorProfile,
    fee_bps: BasisPoints, guarantee_bps: BasisPoints, snapshot: LiquiditySnapshot,
    figures: (u128, u128, u128, u128, u128)) -> bool {
    &&& a.snapshot == snapshot
    &&& match rejection_reason(config, route, op, fee_bps, figures) {
        Some(reason) => !a.admitted && a.reason@ == reason && a.score_penalty == REJECTED_PENALTY,
        None => a.admitted && a.reason@ == "admitted"@
            && a.score_penalty == penalty_spec(route.legs@.len() as int, op.reliability_bps.0, fee_bps.0, guarantee_bps.0),
    }
}

/// What an admission of a bid on an existing route and operator returns.
pub open spec fn admission_outcome(config: RiskConfig, batch: BatchId, route_id: RouteId, operator_id: OperatorId,
    amount_in: Amount, price: Ratio, fee_bps: BasisPoints, guarantee_bps: BasisPoints, now: u64, assets: AssetBook,
    accounts: AccountBook, route: RoutePlan, op: OperatorProfile, r: Result<RiskAssessment>) -> bool {
    let figures = bid_figures(config, route, op, amount_in, price, fee_bps, guarantee_bps, accounts);
    if route.assets_result(assets) is Err {
        r == Err::<RiskAssessment, EclipseError>(route.assets_result(assets)->Err_0)
    } else if !route.enabled {
        r == Err::<RiskAssessment, EclipseError>(EclipseError::RouteDisabled(route.id.0))
    } else if op.status != OperatorStatus::Active {
        r == Err::<RiskAssessment, EclipseError>(EclipseError::OperatorUnavailable(op.id.0))
    } else if !route.quote_ok(amount_in) {
        r is Err && route.quote_failure(amount_in, r->Err_0)
    } else if figures is Err {
        r == Err::<RiskAssessment, EclipseError>(figures->Err_0)
    } else {
        r is Ok && is_assessment_of(r->Ok_0, config, route, op, fee_bps, guarantee_bps,
            snapshot_spec(batch, route_id, operator_id, route, now, figures->Ok_0), figures->Ok_0)
    }
}

/// What `RiskEngine::assess_bid` returns, the lookups of route and operator included.
pub open spec fn assess_bid_outcome(config: RiskConfig, batch: BatchId, route_id: RouteId, operator_id: OperatorId,
    amount_in: Amount, price: Ratio, fee_bps: BasisPoints, guarantee_bps: BasisPoints, now: u64, assets: AssetBook,
    accounts: AccountBook, operators: OperatorBook, routes: RouteBook, r: Result<RiskAssessment>) -> bool {
    if !routes.map().dom().contains(route_id@) {
        r == Err::<RiskAssessment, EclipseError>(EclipseError::RouteNotFound(route_id.0))
    } else if !operators.map().dom().contains(operator_id@) {
        r == Err::<RiskAssessment, EclipseError>(EclipseError::OperatorNotFound(operator_id.0))
    } else {
        admission_outcome(config, batch, route_id, operator_id, amount_in, price, fee_bps, guarantee_bps, now, assets,
            accounts, routes.map()[route_id@], operators.map()[operator_id@], r)
    }
}

/// The outcome of the pre-settlement check.
pub open spec fn preflight_result(config: RiskConfig, route: RoutePlan, accounts: AccountBook, gross_out: Amount,
    min_out: Amount, net_out: Amount) -> Result<()> {
    if net_out.0 < min_out.0 {
        Err(EclipseError::SettlementFloor { net: net_out.0, minimum: min_out.0 })
    } else if !accounts.map().dom().contains(config.vault_account@) {
        Err(EclipseError::AccountNotFound(config.vault_account.0))
    } else if accounts.map()[config.vault_account@].cell_of(route.target@).available.0 < gross_out.0 {
        Err(EclipseError::InsufficientBalance {
            account: config.vault_account.0,
            asset: route.target.0,
            available: accounts.map()[config.vault_account@].cell_of(route.target@).available.0,
            needed: gross_out.0,
        })
    } else {
        Ok(())
    }
}

/// An assessment admits a bid only within every configured limit, and admits every bid that is
/// within them: the route's hop count, the fee ceiling, the operator's reliability, the route's
/// liquidity floor, the vault's balance of the target asset and the operator's free guarantee
/// against the guarantee the bid requires. Its figures are the bid's: the gross output is the input
/// at the price rounded down, the net output is the gross less the fee rounded down, and the
/// required guarantee is the gross at the largest applicable guarantee share, rounded up.
pub proof fn law_admission_within_limits(config: RiskConfig, batch: BatchId, route_id: RouteId, operator_id: OperatorId,
    amount_in: Amount, price: Ratio, fee_bps: BasisPoints, guarantee_bps: BasisPoints, now: u64, assets: AssetBook,
    accounts: AccountBook, operators: OperatorBook, routes: RouteBook, a: RiskAssessment)
    requires
        assess_bid_outcome(config, batch, route_id, operator_id, amount_in, price, fee_bps, guarantee_bps, now, assets,
            accounts, operators, routes, Ok::<RiskAssessment, EclipseError>(a)),
    ensures
        ({
            let route = routes.map()[route_id@];
            let op = operators.map()[operator_id@];
            let snap = a.snapshot;
            let within = route.legs@.len() <= config.max_route_hops && fee_bps.0 <= config.max_fee_bps.0
                && op.reliability_bps.0 >= config.min_operator_reliability_bps.0
                && snap.projected_gross_out >= route.liquidity_floor.0
                && snap.vault_available >= snap.projected_gross_out;
            &&& a.admitted <==> within && snap.operator_available_guarantee >= snap.required_guarantee
            &&& within && snap.operator_available_guarantee < snap.required_guarantee
                ==> !a.admitted && a.reason@ == "operator guarantee"@
            &&& a.admitted ==> a.reason@ == "admitted"@
        }),
        ({
            let route = routes.map()[route_id@];
            let snap = a.snapshot;
            let gross = snap.projected_gross_out as int;
            let bps = selected_guarantee_bps(config.min_guarantee_bps.0, route.guarantee_bps_floor.0, guarantee_bps.0) as int;
            &&& price.denominator > 0
            &&& gross * price.denominator <= amount_in.0 * price.numerator < (gross + 1) * price.denominator
            &&& snap.projected_net_out <= gross
            &&& (gross - snap.projected_net_out) * 10_000 <= gross * fee_bps.0
            &&& gross * fee_bps.0 < (gross - snap.projected_net_out + 1) * 10_000
            &&& bps >= config.min_guarantee_bps.0 && bps >= route.guarantee_bps_floor.0 && bps >= guarantee_bps.0
            &&& gross * bps <= snap.required_guarantee * 10_000 < gross * bps + 10_000
            &&& snap.vault_available == accounts.map()[config.vault_account@].cell_of(route.target@).available.0
            &&& snap.operator_available_guarantee == guarantee_available(operators.map()[operator_id@].guarantee)->Ok_0.0
            &&& snap.batch == batch && snap.route == route_id && snap.operator == operator_id && snap.timestamp == now
        }),
{
    let route = routes.map()[route_id@];
    let op = operators.map()[operator_id@];
    let figures = bid_figures(config, route, op, amount_in, price, fee_bps, guarantee_bps, accounts);
    assert(figures is Ok);
    let (g, net, required, available, vault) = figures->Ok_0;
    assert(a.snapshot == snapshot_spec(batch, route_id, operator_id, route, now, figures->Ok_0));
    let n = price.numerator as int;
    let d = price.denominator as int;
    let x = amount_in.0 as int;
    assert(d > 0 && x * n <= U128_MAX);
    assert(g == (x * n) / d);
    vstd::arithmetic::div_mod::lemma_fundamental_div_mod(x * n, d);
    assert(0 <= (x * n) % d < d);
    assert(g * d == d * ((x * n) / d)) by (nonlinear_arith)
        requires g == (x * n) / d;
    assert((g + 1) * d == g * d + d) by (nonlinear_arith);
    let gi = g as int;
    let f = fee_bps.0 as int;
    let fee = floor_muldiv(g, fee_bps.0 as u128, 10_000);
    assert(fee == (gi * f) / 10_000);
    vstd::arithmetic::div_mod::lemma_fundamental_div_mod(gi * f, 10_000);
    assert(net == gi - fee);
    assert((gi - net) * 10_000 == 10_000 * fee);
    let bps = selected_guarantee_bps(config.min_guarantee_bps.0, route.guarantee_bps_floor.0, guarantee_bps.0) as int;
    assert(required == ceil_muldiv(g, bps as u128, 10_000));
    assert(0 <= gi * bps) by (nonlinear_arith) requires gi >= 0, bps >= 0;
    vstd::arithmetic::div_mod::lemma_fundamental_div_mod(gi * bps + 9_999, 10_000);
    assert(required == (gi * bps + 9_999) / 10_000);
}

impl RiskConfig {
    pub open spec fn with_vault_spec(vault_account: AccountId) -> RiskConfig {
        RiskConfig {
            min_guarantee_bps: BasisPoints(500),
            max_fee_bps: BasisPoints(750),
            max_route_hops: 4,
            min_operator_reliability_bps: BasisPoints(7_500),
            vault_account,
            admission_clock_skew: 30,
        }
    }
}

} // verus!
