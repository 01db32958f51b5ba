use crate::amount::{floor_muldiv, mul_div_floor_result, Amount, BasisPoints, Ratio, U128_MAX};
use crate::asset::AssetBook;
use crate::error::{EclipseError, Result};
use crate::ids::{AssetId, RouteId};
use crate::store::{KeyedStore, Keyed, store_map, lemma_store_map_index, lemma_store_update};
use crate::text::{decimal, push_decimal, push_str};
use vstd::prelude::*;

verus! {

#[derive(Debug, Clone, Copy, PartialEq, Eq, Structural)]
pub enum RouteClass {
    DirectInternal,
    InternalNetting,
    MarketMaker,
    FallbackPool,
    TreasuryBridge,
}

pub open spec fn class_name(c: RouteClass) -> Seq<char> {
    match c {
        RouteClass::DirectInternal => "direct_internal"@,
        RouteClass::InternalNetting => "internal_netting"@,
        RouteClass::MarketMaker => "market_maker"@,
        RouteClass::FallbackPool => "fallback_pool"@,
        RouteClass::TreasuryBridge => "treasury_bridge"@,
    }
}

pub open spec fn class_priority(c: RouteClass) -> i128 {
    match c {
        RouteClass::DirectInternal => 40,
        RouteClass::InternalNetting => 35,
        RouteClass::MarketMaker => 25,
        RouteClass::FallbackPool => 10,
        RouteClass::TreasuryBridge => 5,
    }
}

impl RouteClass {
    pub fn as_str(&self) -> (r: &'static str)
        ensures
            r@ == class_name(*self),
    {
        match self {
            RouteClass::DirectInternal => "direct_internal",
            RouteClass::InternalNetting => "internal_netting",
            RouteClass::MarketMaker => "market_maker",
            RouteClass::FallbackPool => "fallback_pool",
            RouteClass::TreasuryBridge => "treasury_bridge",
        }
    }

    pub fn base_priority(&self) -> (r: i128)
        ensures
            r == class_priority(*self),
    {
        match self {
            RouteClass::DirectInternal => 40,
            RouteClass::InternalNetting => 35,
            RouteClass::MarketMaker => 25,
            RouteClass::FallbackPool => 10,
            RouteClass::TreasuryBridge => 5,
        }
    }
}

/// `amount` less its slippage allowance at `bps`, rounded in the amount's favour.
pub open spec fn slippage_floor_result(amount: Amount, bps: BasisPoints) -> Result<Amount> {
    if amount.0 * bps.0 > U128_MAX {
        Err(EclipseError::AmountOverflow)
    } else if floor_muldiv(amount.0, bps.0 as u128, 10_000) > amount.0 {
        Err(EclipseError::AmountUnderflow)
    } else {
        Ok(Amount((amount.0 - floor_muldiv(amount.0, bps.0 as u128, 10_000)) as u128))
    }
}

/// One conversion step of a route.
#[derive(Debug, PartialEq, Eq)]
pub struct RouteLeg {
    pub source: AssetId,
    pub target: AssetId,
    pub price: Ratio,
    pub max_slippage_bps: BasisPoints,
    pub venue: String,
}

impl Clone for RouteLeg {
    fn clone(&self) -> (r: Self)
        ensures
            r == *self,
    {
        RouteLeg {
            source: self.source.clone(),
            target: self.target.clone(),
            price: self.price,
            max_slippage_bps: self.max_slippage_bps,
            venue: self.venue.clone(),
        }
    }
}

impl RouteLeg {
    pub fn new(source: AssetId, target: AssetId, price: Ratio, max_slippage_bps: BasisPoints, venue: &str) -> (r: RouteLeg)
        ensures
            r.source == source && r.target == target && r.price == price && r.max_slippage_bps == max_slippage_bps,
            r.venue@ == venue@,
    {
        RouteLeg { source, target, price, max_slippage_bps, venue: venue.to_owned() }
    }

    pub fn quote(&self, amount_in: Amount) -> (r: Result<Amount>)
        ensures
            r == mul_div_floor_result(amount_in, self.price.numerator, self.price.denominator),
    {
        self.price.apply_floor(amount_in)
    }

    pub fn slippage_floor(&self, amount: Amount) -> (r: Result<Amount>)
        ensures
            r == slippage_floor_result(amount, self.max_slippage_bps),
    {
        let haircut = self.max_slippage_bps.checked_amount_floor(amount)?;
        amount.checked_sub(haircut)
    }
}

/// The output of the legs applied in order, each rounding down.
pub open spec fn legs_quote(legs: Seq<RouteLeg>, amount: Amount) -> Result<Amount>
    decreases legs.len(),
{
    if legs.len() == 0 {
        Ok(amount)
    } else {
        match legs_quote(legs.drop_last(), amount) {
            Err(e) => Err(e),
            Ok(x) => mul_div_floor_result(x, legs.last().price.numerator, legs.last().price.denominator),
        }
    }
}

/// The output of the legs applied in order, each less its slippage allowance.
pub open spec fn legs_conservative_quote(legs: Seq<RouteLeg>, amount: Amount) -> Result<Amount>
    decreases legs.len(),
{
    if legs.len() == 0 {
        Ok(amount)
    } else {
        match legs_conservative_quote(legs.drop_last(), amount) {
            Err(e) => Err(e),
            Ok(x) => match mul_div_floor_result(x, legs.last().price.numerator, legs.last().price.denominator) {
                Err(e) => Err(e),
                Ok(q) => slippage_floor_result(q, legs.last().max_slippage_bps),
            },
        }
    }
}

/// Every intermediate amount of the plain quote, times ten thousand, fits in 128 bits.
pub open spec fn quote_steps_fit(legs: Seq<RouteLeg>, amount: Amount) -> bool {
    forall|k: int| 0 < k <= legs.len() && (#[trigger] legs_quote(legs.take(k), amount)) is Ok
        ==> legs_quote(legs.take(k), amount)->Ok_0.0 * 10_000 <= U128_MAX
}

/// The conservative quote never exceeds the plain one. Where the plain quote succeeds, every leg
/// allows at most the whole amount as slippage and no intermediate amount overflows when scaled
/// by ten thousand, the conservative quote succeeds as well.
pub proof fn law_conservative_le_quote(legs: Seq<RouteLeg>, amount: Amount)
    requires
        legs_quote(legs, amount) is Ok,
    ensures
        legs_conservative_quote(legs, amount) is Ok
            ==> legs_conservative_quote(legs, amount)->Ok_0.0 <= legs_quote(legs, amount)->Ok_0.0,
        (forall|j: int| 0 <= j < legs.len() ==> (#[trigger] legs[j]).max_slippage_bps.0 <= 10_000)
            && quote_steps_fit(legs, amount) ==> legs_conservative_quote(legs, amount) is Ok,
    decreases legs.len(),
{
    if legs.len() > 0 {
        let d = legs.drop_last();
        let leg = legs.last();
        let n = leg.price.numerator;
        let den = leg.price.denominator;
        let bps = leg.max_slippage_bps.0;
        assert(legs_quote(d, amount) is Ok);
        let x = legs_quote(d, amount)->Ok_0.0;
        let q = legs_quote(legs, amount)->Ok_0.0;
        assert(den != 0 && x * n <= U128_MAX && q == (x * n) / (den as int));
        if (forall|j: int| 0 <= j < legs.len() ==> (#[trigger] legs[j]).max_slippage_bps.0 <= 10_000)
            && quote_steps_fit(legs, amount) {
            assert forall|j: int| 0 <= j < d.len() implies (#[trigger] d[j]).max_slippage_bps.0 <= 10_000 by {
                assert(d[j] == legs[j]);
            }
            assert forall|k: int| 0 < k <= d.len() && (#[trigger] legs_quote(d.take(k), amount)) is Ok
                implies legs_quote(d.take(k), amount)->Ok_0.0 * 10_000 <= U128_MAX by {
                assert(d.take(k) == legs.take(k));
                assert(legs_quote(legs.take(k), amount) is Ok);
            }
            assert(legs.take(legs.len() as int) == legs);
            assert(legs_quote(legs.take(legs.len() as int), amount) is Ok);
            assert(q * 10_000 <= U128_MAX);
            assert(bps <= 10_000) by { assert(legs[legs.len() - 1] == leg); }
        }
        law_conservative_le_quote(d, amount);
        if legs_conservative_quote(d, amount) is Ok {
            let y = legs_conservative_quote(d, amount)->Ok_0.0;
            assert(y <= x);
            assert(y * n <= x * n) by (nonlinear_arith)
                requires y <= x;
            let z: int = (y * n) / (den as int);
            vstd::arithmetic::div_mod::lemma_div_is_ordered(y * n, x * n, den as int);
            assert(z <= q);
            assert(0 <= y * n) by (nonlinear_arith);
            vstd::arithmetic::div_mod::lemma_div_pos_is_pos(y * n, den as int);
            assert(mul_div_floor_result(Amount(y), n, den) == Ok::<Amount, EclipseError>(Amount(z as u128)));
            let zz = z as u128;
            assert(0 <= zz * bps) by (nonlinear_arith);
            vstd::arithmetic::div_mod::lemma_div_pos_is_pos(zz * bps, 10_000);
            if bps <= 10_000 {
                assert(zz * bps <= zz * 10_000) by (nonlinear_arith)
                    requires bps <= 10_000;
                vstd::arithmetic::div_mod::lemma_div_is_ordered(zz * bps, zz * 10_000, 10_000);
                vstd::arithmetic::div_mod::lemma_div_by_multiple(zz as int, 10_000);
                assert(zz * 10_000 <= q * 10_000) by (nonlinear_arith)
                    requires zz <= q;
            }
        }
    }
}

/// The result of checking that asset `id` is registered and enabled.
pub open spec fn asset_enabled_result(assets: AssetBook, id: AssetId) -> Result<()> {
    if !assets.map().dom().contains(id@) {
        Err(EclipseError::AssetNotFound(id.0))
    } else if !assets.map()[id@].enabled {
        Err(EclipseError::AssetDisabled(assets.map()[id@].id.0))
    } else {
        Ok(())
    }
}

/// The first failing check over the assets of the legs, in order.
pub open spec fn legs_assets_result(assets: AssetBook, legs: Seq<RouteLeg>) -> Result<()>
    decreases legs.len(),
{
    if legs.len() == 0 {
        Ok(())
    } else {
        match legs_assets_result(assets, legs.drop_last()) {
            Err(e) => Err(e),
            Ok(()) => match asset_enabled_result(assets, legs.last().source) {
                Err(e) => Err(e),
                Ok(()) => asset_enabled_result(assets, legs.last().target),
            },
        }
    }
}

/// `r` is the rejection of an input outside the route's limits.
pub open spec fn is_limit_rejection(r: Result<Amount>, amount_in: Amount) -> bool {
    match r {
        Err(EclipseError::BidRejected(m)) => m@ == "amount "@ + decimal(amount_in.0 as nat) + " outside route limits"@,
        _ => false,
    }
}

/// A route between two assets, with its legs and limits.
#[derive(Clone, Debug, PartialEq, Eq)]
pub struct RoutePlan {
    pub id: RouteId,
    pub label: String,
    pub class: RouteClass,
    pub source: AssetId,
    pub target: AssetId,
    pub legs: Vec<RouteLeg>,
    pub enabled: bool,
    pub min_input: Amount,
    pub max_input: Amount,
    pub guarantee_bps_floor: BasisPoints,
    pub operator_reliability_floor_bps: BasisPoints,
    pub liquidity_floor: Amount,
    pub fallback_rank: u32,
}

impl Keyed for RoutePlan {
    open spec fn key(&self) -> Seq<char> {
        self.id@
    }

    fn key_str(&self) -> (r: &str) {
        self.id.0.as_str()
    }
}

impl RoutePlan {
    pub fn new(id: RouteId, label: &str, class: RouteClass, source: AssetId, target: AssetId) -> (r: RoutePlan)
        ensures
            r.id == id && r.label@ == label@ && r.class == class && r.source == source && r.target == target,
            r.legs@.len() == 0,
            r.enabled,
            r.min_input.0 == 1,
            r.max_input.0 == U128_MAX / 4,
            r.guarantee_bps_floor.0 == 0,
            r.operator_reliability_floor_bps.0 == 0,
            r.liquidity_floor.0 == 0,
            r.fallback_rank == 100,
    {
        RoutePlan {
            id,
            label: label.to_owned(),
            class,
            source,
            target,
            legs: Vec::new(),
            enabled: true,
            min_input: Amount(1),
            max_input: Amount(U128_MAX / 4),
            guarantee_bps_floor: BasisPoints(0),
            operator_reliability_floor_bps: BasisPoints(0),
            liquidity_floor: Amount(0),
            fallback_rank: 100,
        }
    }

    pub fn with_leg(self, leg: RouteLeg) -> (r: RoutePlan)
        ensures
            r.legs@ == self.legs@.push(leg),
            r.id == self.id && r.label == self.label && r.class == self.class && r.source == self.source,
            r.target == self.target && r.enabled == self.enabled && r.min_input == self.min_input,
            r.max_input == self.max_input && r.guarantee_bps_floor == self.guarantee_bps_floor,
            r.operator_reliability_floor_bps == self.operator_reliability_floor_bps,
            r.liquidity_floor == self.liquidity_floor && r.fallback_rank == self.fallback_rank,
    {
        let mut route = self;
        route.legs.push(leg);
        route
    }

    pub fn with_limits(self, min_input: Amount, max_input: Amount) -> (r: RoutePlan)
        ensures
            r == (RoutePlan { min_input, max_input, ..self }),
    {
        let mut route = self;
        route.min_input = min_input;
        route.max_input = max_input;
        route
    }

    pub fn with_guarantee_floor(self, guarantee_bps_floor: BasisPoints) -> (r: RoutePlan)
        ensures
            r == (RoutePlan { guarantee_bps_floor, ..self }),
    {
        let mut route = self;
        route.guarantee_bps_floor = guarantee_bps_floor;
        route
    }

    pub fn with_liquidity_floor(self, liquidity_floor: Amount) -> (r: RoutePlan)
        ensures
            r == (RoutePlan { liquidity_floor, ..self }),
    {
        let mut route = self;
        route.liquidity_floor = liquidity_floor;
        route
    }

    pub fn with_fallback_rank(self, fallback_rank: u32) -> (r: RoutePlan)
        ensures
            r == (RoutePlan { fallback_rank, ..self }),
    {
        let mut route = self;
        route.fallback_rank = fallback_rank;
        route
    }

    pub fn ensure_enabled(&self) -> (r: Result<()>)
        ensures
            self.enabled ==> r is Ok,
            !self.enabled ==> r == Err::<(), EclipseError>(EclipseError::RouteDisabled(self.id.0)),
    {
        if self.enabled {
            Ok(())
        } else {
            Err(EclipseError::RouteDisabled(self.id.0.clone()))
        }
    }

    /// The result of checking every asset that the route touches.
    pub open spec fn assets_result(&self, assets: AssetBook) -> Result<()> {
        match asset_enabled_result(assets, self.source) {
            Err(e) => Err(e),
            Ok(()) => match asset_enabled_result(assets, self.target) {
                Err(e) => Err(e),
                Ok(()) => legs_assets_result(assets, self.legs@),
            },
        }
    }

    pub fn ensure_assets(&self, assets: &AssetBook) -> (r: Result<()>)
        requires
            assets.wf(),
        ensures
            r == self.assets_result(*assets),
    {
        assets.ensure_enabled(&self.source)?;
        assets.ensure_enabled(&self.target)?;
        let mut i: usize = 0;
        while i < self.legs.len()
            invariant
                assets.wf(),
                asset_enabled_result(*assets, self.source) is Ok,
                asset_enabled_result(*assets, self.target) is Ok,
                i <= self.legs@.len(),
                legs_assets_result(*assets, self.legs@.take(i as int)) is Ok,
            decreases self.legs.len() - i,
        {
            proof { assert(self.legs@.take(i + 1).drop_last() == self.legs@.take(i as int)); }
            let r1 = assets.ensure_enabled(&self.legs[i].source);
            if let Err(e) = r1 {
                proof { Self::lemma_legs_error_persists(*assets, self.legs@, i + 1); }
                return Err(e);
            }
            let r2 = assets.ensure_enabled(&self.legs[i].target);
            if let Err(e) = r2 {
                proof { Self::lemma_legs_error_persists(*assets, self.legs@, i + 1); }
                return Err(e);
            }
            i = i + 1;
        }
        proof { assert(self.legs@.take(i as int) == self.legs@); }
        Ok(())
    }

    proof fn lemma_legs_error_persists(assets: AssetBook, legs: Seq<RouteLeg>, k: int)
        requires
            0 <= k <= legs.len(),
            legs_assets_result(assets, legs.take(k)) is Err,
        ensures
            legs_assets_result(assets, legs) == legs_assets_result(assets, legs.take(k)),
        decreases legs.len() - k,
    {
        if k < legs.len() {
            assert(legs.take(k + 1).drop_last() == legs.take(k));
            Self::lemma_legs_error_persists(assets, legs, k + 1);
        } else {
            assert(legs.take(k) == legs);
        }
    }

    proof fn lemma_quote_error_persists(legs: Seq<RouteLeg>, amount: Amount, k: int)
        requires
            0 <= k <= legs.len(),
            legs_quote(legs.take(k), amount) is Err,
        ensures
            legs_quote(legs, amount) == legs_quote(legs.take(k), amount),
        decreases legs.len() - k,
    {
        if k < legs.len() {
            assert(legs.take(k + 1).drop_last() == legs.take(k));
            Self::lemma_quote_error_persists(legs, amount, k + 1);
        } else {
            assert(legs.take(k) == legs);
        }
    }

    proof fn lemma_conservative_error_persists(legs: Seq<RouteLeg>, amount: Amount, k: int)
        requires
            0 <= k <= legs.len(),
            legs_conservative_quote(legs.take(k), amount) is Err,
        ensures
            legs_conservative_quote(legs, amount) == legs_conservative_quote(legs.take(k), amount),
        decreases legs.len() - k,
    {
        if k < legs.len() {
            assert(legs.take(k + 1).drop_last() == legs.take(k));
            Self::lemma_conservative_error_persists(legs, amount, k + 1);
        } else {
            assert(legs.take(k) == legs);
        }
    }

    /// The output for `amount_in`: the route must be enabled and the input within its limits.
    pub fn quote(&self, amount_in: Amount) -> (r: Result<Amount>)
        ensures
            !self.enabled ==> r == Err::<Amount, EclipseError>(EclipseError::RouteDisabled(self.id.0)),
            self.enabled && (amount_in.0 < self.min_input.0 || amount_in.0 > self.max_input.0)
                ==> is_limit_rejection(r, amount_in),
            self.enabled && self.min_input.0 <= amount_in.0 <= self.max_input.0
                ==> r == legs_quote(self.legs@, amount_in),
    {
        self.ensure_enabled()?;
        if amount_in.0 < self.min_input.0 || amount_in.0 > self.max_input.0 {
            let mut m = String::new();
            push_str(&mut m, "amount ");
            push_decimal(&mut m, amount_in.0);
            push_str(&mut m, " outside route limits");
            return Err(EclipseError::BidRejected(m));
        }
        if self.legs.len() == 0 {
            return Ok(amount_in);
        }
        let mut amount = amount_in;
        let mut i: usize = 0;
        while i < self.legs.len()
            invariant
                self.enabled,
                self.min_input.0 <= amount_in.0 <= self.max_input.0,
                i <= self.legs@.len(),
                legs_quote(self.legs@.take(i as int), amount_in) == Ok::<Amount, EclipseError>(amount),
            decreases self.legs.len() - i,
        {
            proof { assert(self.legs@.take(i + 1).drop_last() == self.legs@.take(i as int)); }
            match self.legs[i].quote(amount) {
                Ok(next) => amount = next,
                Err(e) => {
                    proof { Self::lemma_quote_error_persists(self.legs@, amount_in, i + 1); }
                    return Err(e);
                },
            }
            i = i + 1;
        }
        proof { assert(self.legs@.take(i as int) == self.legs@); }
        Ok(amount)
    }

    pub fn conservative_quote(&self, amount_in: Amount) -> (r: Result<Amount>)
        ensures
            r == legs_conservative_quote(self.legs@, amount_in),
    {
        let mut amount = amount_in;
        let mut i: usize = 0;
        while i < self.legs.len()
            invariant
                i <= self.legs@.len(),
                legs_conservative_quote(self.legs@.take(i as int), amount_in) == Ok::<Amount, EclipseError>(amount),
            decreases self.legs.len() - i,
        {
            proof { assert(self.legs@.take(i + 1).drop_last() == self.legs@.take(i as int)); }
            let quoted = match self.legs[i].quote(amount) {
                Ok(q) => q,
                Err(e) => {
                    proof { Self::lemma_conservative_error_persists(self.legs@, amount_in, i + 1); }
                    return Err(e);
                },
            };
            match self.legs[i].slippage_floor(quoted) {
                Ok(next) => amount = next,
                Err(e) => {
                    proof { Self::lemma_conservative_error_persists(self.legs@, amount_in, i + 1); }
                    return Err(e);
                },
            }
            i = i + 1;
        }
        proof { assert(self.legs@.take(i as int) == self.legs@); }
        Ok(amount)
    }

    /// A quote for `amount_in` succeeds.
    pub open spec fn quote_ok(&self, amount_in: Amount) -> bool {
        &&& self.enabled
        &&& self.min_input.0 <= amount_in.0 <= self.max_input.0
        &&& legs_quote(self.legs@, amount_in) is Ok
    }

    /// `e` is the error with which a quote for `amount_in` fails.
    pub open spec fn quote_failure(&self, amount_in: Amount, e: EclipseError) -> bool {
        if !self.enabled {
            e == EclipseError::RouteDisabled(self.id.0)
        } else if amount_in.0 < self.min_input.0 || amount_in.0 > self.max_input.0 {
            is_limit_rejection(Err(e), amount_in)
        } else {
            legs_quote(self.legs@, amount_in) == Err::<Amount, EclipseError>(e)
        }
    }

    pub fn first_venue(&self) -> (r: Option<&str>)
        ensures
            self.legs@.len() == 0 ==> r is None,
            self.legs@.len() > 0 ==> r is Some && r->Some_0@ == self.legs@[0].venue@,
    {
        if self.legs.len() == 0 {
            None
        } else {
            Some(self.legs[0].venue.as_str())
        }
    }

    pub fn last_venue(&self) -> (r: Option<&str>)
        ensures
            self.legs@.len() == 0 ==> r is None,
            self.legs@.len() > 0 ==> r is Some && r->Some_0@ == self.legs@.last().venue@,
    {
        if self.legs.len() == 0 {
            None
        } else {
            Some(self.legs[self.legs.len() - 1].venue.as_str())
        }
    }

    pub fn hops(&self) -> (r: usize)
        ensures
            r == self.legs@.len(),
    {
        self.legs.len()
    }

    pub fn matches_pair(&self, source: &AssetId, target: &AssetId) -> (r: bool)
        ensures
            r == (self.source@ == source@ && self.target@ == target@),
    {
        self.source.0 == source.0 && self.target.0 == target.0
    }
}

/// Inserts `x` after every route whose rank does not exceed its own.
pub open spec fn insert_by_rank(s: Seq<RoutePlan>, x: RoutePlan) -> Seq<RoutePlan>
    decreases s.len(),
{
    if s.len() == 0 {
        seq![x]
    } else if s.last().fallback_rank <= x.fallback_rank {
        s.push(x)
    } else {
        insert_by_rank(s.drop_last(), x).push(s.last())
    }
}

/// The routes ordered by fallback rank, keeping their order among equal ranks.
pub open spec fn sort_by_rank(s: Seq<RoutePlan>) -> Seq<RoutePlan>
    decreases s.len(),
{
    if s.len() == 0 { s } else { insert_by_rank(sort_by_rank(s.drop_last()), s.last()) }
}

pub open spec fn sorted_by_rank(s: Seq<RoutePlan>) -> bool {
    forall|i: int, j: int| 0 <= i < j < s.len() ==> (#[trigger] s[i]).fallback_rank <= (#[trigger] s[j]).fallback_rank
}

proof fn lemma_insert_by_rank_sorted(s: Seq<RoutePlan>, x: RoutePlan)
    requires
        sorted_by_rank(s),
    ensures
        sorted_by_rank(insert_by_rank(s, x)),
        insert_by_rank(s, x).len() == s.len() + 1,
        insert_by_rank(s, x).to_multiset() == s.to_multiset().insert(x),
    decreases s.len(),
{
    broadcast use vstd::seq_lib::group_to_multiset_ensures, vstd::multiset::group_multiset_axioms;
    if s.len() == 0 {
        assert(seq![x] == s.push(x));
    } else if s.last().fallback_rank <= x.fallback_rank {
    } else {
        let d = s.drop_last();
        let t = insert_by_rank(d, x);
        lemma_insert_by_rank_sorted(d, x);
        assert(s == d.push(s.last()));
        assert forall|k: int| 0 <= k < t.len() implies (#[trigger] t[k]).fallback_rank <= s.last().fallback_rank by {
            assert(t.contains(t[k]));
            assert(t.to_multiset().count(t[k]) > 0);
            if t[k] != x {
                assert(d.to_multiset().count(t[k]) > 0);
                assert(d.contains(t[k]));
                let m = choose|m: int| 0 <= m < d.len() && d[m] == t[k];
                assert(s[m] == t[k]);
                assert(s[s.len() - 1] == s.last());
            }
        }
        assert(t.push(s.last()).to_multiset() =~= s.to_multiset().insert(x));
    }
}

/// Ordering by fallback rank gives a sorted rearrangement of the same routes.
pub proof fn law_sort_by_rank_sorted_permutation(s: Seq<RoutePlan>)
    ensures
        sorted_by_rank(sort_by_rank(s)),
        sort_by_rank(s).to_multiset() == s.to_multiset(),
    decreases s.len(),
{
    broadcast use vstd::seq_lib::group_to_multiset_ensures;
    if s.len() > 0 {
        law_sort_by_rank_sorted_permutation(s.drop_last());
        lemma_insert_by_rank_sorted(sort_by_rank(s.drop_last()), s.last());
        assert(s == s.drop_last().push(s.last()));
    }
}


proof fn lemma_insert_by_rank_position(s: Seq<RoutePlan>, x: RoutePlan, p: int)
    requires
        0 <= p <= s.len(),
        forall|j: int| p <= j < s.len() ==> (#[trigger] s[j]).fallback_rank > x.fallback_rank,
        p == 0 || s[p - 1].fallback_rank <= x.fallback_rank,
    ensures
        insert_by_rank(s, x) == s.insert(p, x),
    decreases s.len(),
{
    if s.len() == 0 {
        assert(s.insert(p, x) =~= seq![x]);
    } else if s.last().fallback_rank <= x.fallback_rank {
        if p < s.len() {
            assert(s[s.len() - 1].fallback_rank > x.fallback_rank);
        }
        assert(s.insert(p, x) =~= s.push(x));
    } else {
        let d = s.drop_last();
        assert(p < s.len());
        lemma_insert_by_rank_position(d, x, p);
        assert(d.insert(p, x).push(s.last()) =~= s.insert(p, x));
    }
}

/// The enabled routes from `source` to `target`, in identifier order.
pub open spec fn candidate_routes(s: Seq<RoutePlan>, source: Seq<char>, target: Seq<char>) -> Seq<RoutePlan>
    decreases s.len(),
{
    if s.len() == 0 {
        Seq::empty()
    } else if s.last().enabled && s.last().source@ == source && s.last().target@ == target {
        candidate_routes(s.drop_last(), source, target).push(s.last())
    } else {
        candidate_routes(s.drop_last(), source, target)
    }
}

/// The registered routes, ordered by identifier.
#[derive(Clone, Debug)]
pub struct RouteBook {
    pub routes: KeyedStore<RoutePlan>,
}

impl Default for RouteBook {
    fn default() -> (r: RouteBook)
        ensures
            r.wf(),
            r.map() == Map::<Seq<char>, RoutePlan>::empty(),
            r.entries() == Seq::<RoutePlan>::empty(),
    {
        RouteBook::new()
    }
}

impl RouteBook {
    pub open spec fn entries(&self) -> Seq<RoutePlan> {
        self.routes@
    }

    pub open spec fn wf(&self) -> bool {
        self.routes.wf()
    }

    pub open spec fn map(&self) -> Map<Seq<char>, RoutePlan> {
        store_map(self.entries())
    }

    pub fn new() -> (r: RouteBook)
        ensures
            r.wf(),
            r.map() == Map::<Seq<char>, RoutePlan>::empty(),
            r.entries() == Seq::<RoutePlan>::empty(),
    {
        let r = RouteBook { routes: KeyedStore::new() };
        proof { assert(r.map() =~= Map::<Seq<char>, RoutePlan>::empty()); }
        r
    }

    pub fn insert(&mut self, route: RoutePlan) -> (r: Result<()>)
        requires
            old(self).wf(),
        ensures
            final(self).wf(),
            old(self).map().dom().contains(route.id@) ==> r == Err::<(), EclipseError>(EclipseError::DuplicateId(route.id.0))
                && final(self).map() == old(self).map(),
            !old(self).map().dom().contains(route.id@) ==> r is Ok
                && final(self).map() == old(self).map().insert(route.id@, route),
    {
        let id = route.id.0.clone();
        match self.routes.insert_new(route) {
            Ok(()) => Ok(()),
            Err(_) => Err(EclipseError::DuplicateId(id)),
        }
    }

    /// The route under `id`, to be changed in place. A change that keeps its identifier keeps the
    /// book well formed and replaces that route in it.
    pub fn get_mut(&mut self, id: &RouteId) -> (r: Result<&mut RoutePlan>)
        requires
            old(self).wf(),
        ensures
            !old(self).map().dom().contains(id@) ==> r == Err::<&mut RoutePlan, EclipseError>(EclipseError::RouteNotFound(id.0))
                && *final(self) == *old(self),
            old(self).map().dom().contains(id@) ==> r is Ok && *r->Ok_0 == old(self).map()[id@],
            r is Ok && final(r->Ok_0).key() == id@ ==> final(self).wf()
                && final(self).map() == old(self).map().insert(id@, *final(r->Ok_0)),
    {
        match self.routes.get_mut(id.as_str()) {
            Some(v) => Ok(v),
            None => Err(EclipseError::RouteNotFound(id.0.clone())),
        }
    }

    pub fn get(&self, id: &RouteId) -> (r: Result<&RoutePlan>)
        requires
            self.wf(),
        ensures
            self.map().dom().contains(id@) ==> r is Ok && *r->Ok_0 == self.map()[id@],
            !self.map().dom().contains(id@) ==> r == Err::<&RoutePlan, EclipseError>(EclipseError::RouteNotFound(id.0)),
    {
        match self.routes.find(id.as_str()) {
            Some(i) => {
                proof { lemma_store_map_index(self.routes@, i as int); }
                Ok(self.routes.at(i))
            },
            None => Err(EclipseError::RouteNotFound(id.0.clone())),
        }
    }

    fn set_enabled(&mut self, id: &RouteId, enabled: bool) -> (r: Result<()>)
        requires
            old(self).wf(),
        ensures
            final(self).wf(),
            !old(self).map().dom().contains(id@) ==> r == Err::<(), EclipseError>(EclipseError::RouteNotFound(id.0))
                && final(self).map() == old(self).map(),
            old(self).map().dom().contains(id@) ==> r is Ok && final(self).map()
                == old(self).map().insert(id@, RoutePlan { enabled, ..old(self).map()[id@] }),
    {
        match self.routes.find(id.as_str()) {
            Some(i) => {
                let ghost before = self.routes@;
                proof { lemma_store_map_index(before, i as int); }
                let mut route = self.routes.take(i);
                route.enabled = enabled;
                self.routes.put_back(i, route, Ghost(before));
                Ok(())
            },
            None => Err(EclipseError::RouteNotFound(id.0.clone())),
        }
    }

    pub fn enable(&mut self, id: &RouteId) -> (r: Result<()>)
        requires
            old(self).wf(),
        ensures
            final(self).wf(),
            !old(self).map().dom().contains(id@) ==> r == Err::<(), EclipseError>(EclipseError::RouteNotFound(id.0))
                && final(self).map() == old(self).map(),
            old(self).map().dom().contains(id@) ==> r is Ok && final(self).map()
                == old(self).map().insert(id@, RoutePlan { enabled: true, ..old(self).map()[id@] }),
    {
        self.set_enabled(id, true)
    }

    pub fn disable(&mut self, id: &RouteId) -> (r: Result<()>)
        requires
            old(self).wf(),
        ensures
            final(self).wf(),
            !old(self).map().dom().contains(id@) ==> r == Err::<(), EclipseError>(EclipseError::RouteNotFound(id.0))
                && final(self).map() == old(self).map(),
            old(self).map().dom().contains(id@) ==> r is Ok && final(self).map()
                == old(self).map().insert(id@, RoutePlan { enabled: false, ..old(self).map()[id@] }),
    {
        self.set_enabled(id, false)
    }

    /// The enabled routes from `source` to `target`, in identifier order.
    pub fn candidates(&self, source: &AssetId, target: &AssetId) -> (r: Vec<&RoutePlan>)
        ensures
            r@.len() == candidate_routes(self.entries(), source@, target@).len(),
            forall|i: int| 0 <= i < r@.len() ==> *#[trigger] r@[i] == candidate_routes(self.entries(), source@, target@)[i],
    {
        let mut out: Vec<&RoutePlan> = Vec::new();
        let ghost mut g: Seq<RoutePlan> = Seq::empty();
        let mut i: usize = 0;
        while i < self.routes.len()
            invariant
                i <= self.routes@.len(),
                g == candidate_routes(self.routes@.take(i as int), source@, target@),
                out@.len() == g.len(),
                forall|j: int| 0 <= j < out@.len() ==> *#[trigger] out@[j] == g[j],
            decreases self.routes@.len() - i,
        {
            proof { assert(self.routes@.take(i + 1).drop_last() == self.routes@.take(i as int)); }
            let route = self.routes.at(i);
            if route.enabled && route.matches_pair(source, target) {
                out.push(route);
                proof { g = g.push(*route); }
            }
            i = i + 1;
        }
        proof { assert(self.routes@.take(i as int) == self.routes@); }
        out
    }

    /// The candidates ordered by fallback rank, identifier order breaking ties.
    pub fn fallback_candidates(&self, source: &AssetId, target: &AssetId) -> (r: Vec<&RoutePlan>)
        ensures
            r@.len() == sort_by_rank(candidate_routes(self.entries(), source@, target@)).len(),
            forall|i: int| 0 <= i < r@.len()
                ==> *#[trigger] r@[i] == sort_by_rank(candidate_routes(self.entries(), source@, target@))[i],
    {
        let candidates = self.candidates(source, target);
        let ghost c = candidate_routes(self.entries(), source@, target@);
        let mut out: Vec<&RoutePlan> = Vec::new();
        let ghost mut g: Seq<RoutePlan> = Seq::empty();
        let mut i: usize = 0;
        while i < candidates.len()
            invariant
                candidates@.len() == c.len(),
                forall|j: int| 0 <= j < c.len() ==> *#[trigger] candidates@[j] == c[j],
                i <= c.len(),
                g == sort_by_rank(c.take(i as int)),
                out@.len() == g.len(),
                forall|j: int| 0 <= j < out@.len() ==> *#[trigger] out@[j] == g[j],
            decreases c.len() - i,
        {
            proof { assert(c.take(i + 1).drop_last() == c.take(i as int)); }
            let x = candidates[i];
            let mut p: usize = out.len();
            while p > 0 && out[p - 1].fallback_rank > x.fallback_rank
                invariant
                    p <= out@.len(),
                    out@.len() == g.len(),
                    forall|j: int| 0 <= j < out@.len() ==> *#[trigger] out@[j] == g[j],
                    forall|j: int| p <= j < g.len() ==> (#[trigger] g[j]).fallback_rank > x.fallback_rank,
                decreases p,
            {
                p = p - 1;
            }
            proof { lemma_insert_by_rank_position(g, *x, p as int); }
            out.insert(p, x);
            proof {
                g = g.insert(p as int, *x);
            }
            i = i + 1;
        }
        proof { assert(c.take(i as int) == c); }
        out
    }

    /// The routes in identifier order.
    pub fn list(&self) -> (r: Vec<&RoutePlan>)
        ensures
            r@.len() == self.entries().len(),
            forall|i: int| 0 <= i < r@.len() ==> *#[trigger] r@[i] == self.entries()[i],
    {
        let mut out: Vec<&RoutePlan> = Vec::new();
        let mut i: usize = 0;
        while i < self.routes.len()
            invariant
                i <= self.routes@.len(),
                out@.len() == i,
                forall|j: int| 0 <= j < i ==> *#[trigger] out@[j] == self.routes@[j],
            decreases self.routes@.len() - i,
        {
            out.push(self.routes.at(i));
            i = i + 1;
        }
        out
    }

    pub fn views(&self) -> (r: Vec<RouteView>)
        ensures
            r@.len() == self.entries().len(),
            forall|i: int| 0 <= i < r@.len() ==> (#[trigger] r@[i]).describes(self.entries()[i]),
    {
        let mut out: Vec<RouteView> = Vec::new();
        let mut i: usize = 0;
        while i < self.routes.len()
            invariant
                i <= self.routes@.len(),
                out@.len() == i,
                forall|j: int| 0 <= j < i ==> (#[trigger] out@[j]).describes(self.routes@[j]),
            decreases self.routes@.len() - i,
        {
            out.push(RouteView::from_route(self.routes.at(i)));
            i = i + 1;
        }
        out
    }
}

/// A priced quote over a route.
#[derive(Debug, PartialEq, Eq)]
pub struct RouteQuote {
    pub route: RouteId,
    pub amount_in: u128,
    pub gross_out: u128,
    pub conservative_out: u128,
    pub hops: usize,
}

impl Clone for RouteQuote {
    fn clone(&self) -> (r: Self)
        ensures
            r == *self,
    {
        RouteQuote { route: self.route.clone(), ..*self }
    }
}

impl RouteQuote {
    pub fn from_route(route: &RoutePlan, amount_in: Amount) -> (r: Result<RouteQuote>)
        ensures
            !route.quote_ok(amount_in) ==> r is Err && route.quote_failure(amount_in, r->Err_0),
            route.quote_ok(amount_in) && legs_conservative_quote(route.legs@, amount_in) is Err
                ==> r == Err::<RouteQuote, EclipseError>(legs_conservative_quote(route.legs@, amount_in)->Err_0),
            route.quote_ok(amount_in) && legs_conservative_quote(route.legs@, amount_in) is Ok ==> r == Ok::<RouteQuote, EclipseError>(RouteQuote {
                route: route.id,
                amount_in: amount_in.0,
                gross_out: legs_quote(route.legs@, amount_in)->Ok_0.0,
                conservative_out: legs_conservative_quote(route.legs@, amount_in)->Ok_0.0,
                hops: route.legs@.len() as usize,
            }),
    {
        let gross = route.quote(amount_in)?;
        let conservative = route.conservative_quote(amount_in)?;
        Ok(RouteQuote {
            route: route.id.clone(),
            amount_in: amount_in.raw(),
            gross_out: gross.raw(),
            conservative_out: conservative.raw(),
            hops: route.hops(),
        })
    }
}

/// A flattened route.
#[derive(Debug, PartialEq, Eq)]
pub struct RouteView {
    pub id: RouteId,
    pub label: String,
    pub class: String,
    pub source: AssetId,
    pub target: AssetId,
    pub enabled: bool,
    pub min_input: u128,
    pub max_input: u128,
    pub guarantee_bps_floor: u32,
    pub liquidity_floor: u128,
    pub fallback_rank: u32,
    pub hops: usize,
}

impl Clone for RouteView {
    fn clone(&self) -> (r: Self)
        ensures
            r == *self,
    {
        RouteView {
            id: self.id.clone(),
            label: self.label.clone(),
            class: self.class.clone(),
            source: self.source.clone(),
            target: self.target.clone(),
            ..*self
        }
    }
}

impl RouteView {
    pub open spec fn describes(&self, route: RoutePlan) -> bool {
        &&& self.id == route.id
        &&& self.label == route.label
        &&& self.class@ == class_name(route.class)
        &&& self.source == route.source
        &&& self.target == route.target
        &&& self.enabled == route.enabled
        &&& self.min_input == route.min_input.0
        &&& self.max_input == route.max_input.0
        &&& self.guarantee_bps_floor == route.guarantee_bps_floor.0
        &&& self.liquidity_floor == route.liquidity_floor.0
        &&& self.fallback_rank == route.fallback_rank
        &&& self.hops == route.legs@.len()
    }

    pub fn from_route(value: &RoutePlan) -> (r: RouteView)
        ensures
            r.describes(*value),
    {
        let mut class = String::new();
        push_str(&mut class, value.class.as_str());
        RouteView {
            id: value.id.clone(),
            label: value.label.clone(),
            class,
            source: value.source.clone(),
            target: value.target.clone(),
            enabled: value.enabled,
            min_input: value.min_input.raw(),
            max_input: value.max_input.raw(),
            guarantee_bps_floor: value.guarantee_bps_floor.raw(),
            liquidity_floor: value.liquidity_floor.raw(),
            fallback_rank: value.fallback_rank,
            hops: value.hops(),
        }
    }
}

/// The window in which an expected output over a route may settle.
#[derive(Debug, PartialEq, Eq)]
pub struct RouteEnvelope {
    pub route: RouteId,
    pub amount_in: Amount,
    pub expected_out: Amount,
    pub settlement_window_start: u64,
    pub settlement_window_end: u64,
}

impl Clone for RouteEnvelope {
    fn clone(&self) -> (r: Self)
        ensures
            r == *self,
    {
        RouteEnvelope { route: self.route.clone(), ..*self }
    }
}

impl RouteEnvelope {
    pub fn new(route: RouteId, amount_in: Amount, expected_out: Amount, settlement_window_start: u64, settlement_window_end: u64) -> (r: RouteEnvelope)
        ensures
            r == (RouteEnvelope { route, amount_in, expected_out, settlement_window_start, settlement_window_end }),
    {
        RouteEnvelope { route, amount_in, expected_out, settlement_window_start, settlement_window_end }
    }

    pub fn is_live_at(&self, timestamp: u64) -> (r: bool)
        ensures
            r == (self.settlement_window_start <= timestamp && timestamp <= self.settlement_window_end),
    {
        timestamp >= self.settlement_window_start && timestamp <= self.settlement_window_end
    }
}

} // verus!
