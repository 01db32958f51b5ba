use crate::amount::{amount_sum, checked_sum, floor_muldiv, Amount, BasisPoints, U128_MAX};
use crate::capital::saturating_mul;
use crate::error::{EclipseError, Result};
use crate::ids::{AssetId, OperatorId, RouteId};
use crate::store::{lemma_store_map_index, sorted_by_key, store_map, Keyed, KeyedStore};
use vstd::prelude::*;

verus! {

/// A pool of one asset that a route can reserve from.
#[derive(Debug, PartialEq, Eq)]
pub struct PortfolioBucket {
    pub name: String,
    pub asset: AssetId,
    pub free: Amount,
    pub reserved: Amount,
    pub haircut_bps: BasisPoints,
}

impl Clone for PortfolioBucket {
    fn clone(&self) -> (r: Self)
        ensures
            r == *self,
    {
        PortfolioBucket { name: self.name.clone(), asset: self.asset.clone(), ..*self }
    }
}

/// The free amount less its haircut, rounded down.
pub open spec fn effective_free_spec(b: PortfolioBucket) -> Result<Amount> {
    if b.free.0 * b.haircut_bps.0 > U128_MAX {
        Err(EclipseError::AmountOverflow)
    } else if floor_muldiv(b.free.0, b.haircut_bps.0 as u128, 10_000) > b.free.0 {
        Err(EclipseError::AmountUnderflow)
    } else {
        Ok(Amount((b.free.0 - floor_muldiv(b.free.0, b.haircut_bps.0 as u128, 10_000)) as u128))
    }
}

/// A reservation moves `amount` from free to reserved when the effective free amount covers it.
pub open spec fn bucket_reserve_post(b: PortfolioBucket, amount: Amount) -> (PortfolioBucket, Result<()>) {
    match effective_free_spec(b) {
        Err(e) => (b, Err(e)),
        Ok(effective) => if effective.0 < amount.0 {
            (b, Err(EclipseError::AmountUnderflow))
        } else if b.reserved.0 + amount.0 > U128_MAX {
            (PortfolioBucket { free: Amount((b.free.0 - amount.0) as u128), ..b }, Err(EclipseError::AmountOverflow))
        } else {
            (PortfolioBucket {
                free: Amount((b.free.0 - amount.0) as u128),
                reserved: Amount((b.reserved.0 + amount.0) as u128),
                ..b
            }, Ok(()))
        },
    }
}

/// A release moves `amount` from reserved back to free.
pub open spec fn bucket_release_post(b: PortfolioBucket, amount: Amount) -> (PortfolioBucket, Result<()>) {
    if b.reserved.0 < amount.0 {
        (b, Err(EclipseError::AmountUnderflow))
    } else if b.free.0 + amount.0 > U128_MAX {
        (PortfolioBucket { reserved: Amount((b.reserved.0 - amount.0) as u128), ..b }, Err(EclipseError::AmountOverflow))
    } else {
        (PortfolioBucket {
            reserved: Amount((b.reserved.0 - amount.0) as u128),
            free: Amount((b.free.0 + amount.0) as u128),
            ..b
        }, Ok(()))
    }
}

/// Consuming takes `amount` out of the reserve.
pub open spec fn bucket_consume_post(b: PortfolioBucket, amount: Amount) -> (PortfolioBucket, Result<()>) {
    if b.reserved.0 < amount.0 {
        (b, Err(EclipseError::AmountUnderflow))
    } else {
        (PortfolioBucket { reserved: Amount((b.reserved.0 - amount.0) as u128), ..b }, Ok(()))
    }
}

impl PortfolioBucket {
    pub fn new(name: &str, asset: AssetId, free: Amount) -> (r: PortfolioBucket)
        ensures
            r.name@ == name@,
            r == (PortfolioBucket { name: r.name, asset, free, reserved: Amount(0), haircut_bps: BasisPoints(0) }),
    {
        PortfolioBucket { name: name.to_owned(), asset, free, reserved: Amount(0), haircut_bps: BasisPoints(0) }
    }

    pub fn effective_free(&self) -> (r: Result<Amount>)
        ensures
            r == effective_free_spec(*self),
    {
        let haircut = self.haircut_bps.checked_amount_floor(self.free)?;
        self.free.checked_sub(haircut)
    }

    pub fn reserve(&mut self, amount: Amount) -> (r: Result<()>)
        ensures
            (*final(self), r) == bucket_reserve_post(*old(self), amount),
    {
        let effective = self.effective_free()?;
        if effective.0 < amount.0 {
            return Err(EclipseError::AmountUnderflow);
        }
        self.free = self.free.checked_sub(amount)?;
        self.reserved = self.reserved.checked_add(amount)?;
        Ok(())
    }

    pub fn release(&mut self, amount: Amount) -> (r: Result<()>)
        ensures
            (*final(self), r) == bucket_release_post(*old(self), amount),
    {
        if self.reserved.0 < amount.0 {
            return Err(EclipseError::AmountUnderflow);
        }
        self.reserved = self.reserved.checked_sub(amount)?;
        self.free = self.free.checked_add(amount)?;
        Ok(())
    }

    pub fn consume_reserved(&mut self, amount: Amount) -> (r: Result<()>)
        ensures
            (*final(self), r) == bucket_consume_post(*old(self), amount),
    {
        if self.reserved.0 < amount.0 {
            return Err(EclipseError::AmountUnderflow);
        }
        self.reserved = self.reserved.checked_sub(amount)?;
        Ok(())
    }
}

/// A successful reservation followed by a release of the same amount restores the bucket.
pub proof fn law_reserve_then_release(b: PortfolioBucket, amount: Amount)
    requires
        bucket_reserve_post(b, amount).1 is Ok,
    ensures
        bucket_release_post(bucket_reserve_post(b, amount).0, amount) == (b, Ok::<(), EclipseError>(())),
{
}

/// A reservation never changes what the bucket holds in total.
pub proof fn law_reserve_keeps_total(b: PortfolioBucket, amount: Amount)
    requires
        bucket_reserve_post(b, amount).1 is Ok,
    ensures
        bucket_reserve_post(b, amount).0.free.0 + bucket_reserve_post(b, amount).0.reserved.0 == b.free.0 + b.reserved.0,
{
}

pub open spec fn bucket_frees(s: Seq<PortfolioBucket>) -> Seq<Amount> {
    s.map_values(|b: PortfolioBucket| b.free)
}

pub open spec fn bucket_reserves(s: Seq<PortfolioBucket>) -> Seq<Amount> {
    s.map_values(|b: PortfolioBucket| b.reserved)
}

/// The checked sum of amounts: the sum, or an overflow.
pub open spec fn checked_total(values: Seq<Amount>) -> Result<Amount> {
    if amount_sum(values) > U128_MAX {
        Err(EclipseError::AmountOverflow)
    } else {
        Ok(Amount(amount_sum(values) as u128))
    }
}

/// The effective free amounts added up in order; the first failure stops the sum.
pub open spec fn effective_total(s: Seq<PortfolioBucket>) -> Result<Amount>
    decreases s.len(),
{
    if s.len() == 0 {
        Ok(Amount(0))
    } else {
        match effective_total(s.drop_last()) {
            Err(e) => Err(e),
            Ok(acc) => match effective_free_spec(s.last()) {
                Err(e) => Err(e),
                Ok(x) => if acc.0 + x.0 > U128_MAX {
                    Err(EclipseError::AmountOverflow)
                } else {
                    Ok(Amount((acc.0 + x.0) as u128))
                },
            },
        }
    }
}

pub proof fn lemma_effective_error_persists(s: Seq<PortfolioBucket>, k: int)
    requires
        0 <= k <= s.len(),
        effective_total(s.take(k)) is Err,
    ensures
        effective_total(s) == effective_total(s.take(k)),
    decreases s.len() - k,
{
    if k < s.len() {
        assert(s.take(k + 1).drop_last() == s.take(k));
        lemma_effective_error_persists(s, k + 1);
    } else {
        assert(s.take(k) == s);
    }
}

/// The bucket that a first-fit reservation picks: the first whose effective free amount covers the
/// request, unless an effective amount fails to compute before it.
pub open spec fn first_fit(s: Seq<PortfolioBucket>, amount: Amount, i: int) -> bool {
    &&& 0 <= i < s.len()
    &&& effective_free_spec(s[i]) is Ok && effective_free_spec(s[i])->Ok_0.0 >= amount.0
    &&& forall|j: int| 0 <= j < i ==> effective_free_spec(#[trigger] s[j]) is Ok && effective_free_spec(s[j])->Ok_0.0 < amount.0
}

/// What a first-fit reservation of `amount` makes of a route portfolio, with its result.
pub open spec fn first_fit_effect(before: RoutePortfolio, after: RoutePortfolio, amount: Amount, r: Result<String>) -> bool {
    let s = before.buckets@;
    &&& after.route == before.route
    &&& after.soft_limit == before.soft_limit
    &&& after.hard_limit == before.hard_limit
    &&& forall|i: int| #![trigger s[i]] first_fit(s, amount, i) ==> {
        &&& after.buckets@ == s.update(i, bucket_reserve_post(s[i], amount).0)
        &&& bucket_reserve_post(s[i], amount).1 is Err
            ==> r == Err::<String, EclipseError>(bucket_reserve_post(s[i], amount).1->Err_0)
        &&& bucket_reserve_post(s[i], amount).1 is Ok ==> r is Ok && r->Ok_0@ == s[i].name@
    }
    &&& (forall|i: int| !first_fit(s, amount, i)) ==> after.buckets@ == s && r is Err
    &&& (forall|i: int| !first_fit(s, amount, i)) && (forall|j: int| 0 <= j < s.len()
        ==> effective_free_spec(#[trigger] s[j]) is Ok) ==> r == Err::<String, EclipseError>(EclipseError::AmountUnderflow)
    &&& (exists|j: int| 0 <= j < s.len() && effective_free_spec(#[trigger] s[j]) is Err
        && forall|k: int| 0 <= k < j ==> effective_free_spec(#[trigger] s[k]) is Ok && effective_free_spec(s[k])->Ok_0.0 < amount.0)
        ==> r is Err && after.buckets@ == s
}

/// The buckets of one route with its limits.
#[derive(Clone, Debug, PartialEq, Eq)]
pub struct RoutePortfolio {
    pub route: RouteId,
    pub buckets: Vec<PortfolioBucket>,
    pub soft_limit: Amount,
    pub hard_limit: Amount,
}

impl Keyed for RoutePortfolio {
    open spec fn key(&self) -> Seq<char> {
        self.route@
    }

    fn key_str(&self) -> (r: &str) {
        self.route.as_str()
    }
}

pub const SOFT_LIMIT_DEFAULT: u128 = 21267647932558653966460912964485513215u128;
pub const HARD_LIMIT_DEFAULT: u128 = 42535295865117307932921825928971026431u128;

/// The share of the hard limit that is reserved, in basis points, capped at the whole.
pub open spec fn utilization_spec(reserved: u128, hard_limit: u128) -> u32 {
    if hard_limit == 0 {
        0
    } else {
        let scaled = if reserved * 10_000 > U128_MAX { U128_MAX as int } else { reserved * 10_000 };
        if scaled / (hard_limit as int) > 10_000 { 10_000 } else { (scaled / (hard_limit as int)) as u32 }
    }
}

impl RoutePortfolio {
    pub fn new(route: RouteId) -> (r: RoutePortfolio)
        ensures
            r.route == route,
            r.buckets@ == Seq::<PortfolioBucket>::empty(),
            r.soft_limit.0 == SOFT_LIMIT_DEFAULT,
            r.hard_limit.0 == HARD_LIMIT_DEFAULT,
    {
        RoutePortfolio { route, buckets: Vec::new(), soft_limit: Amount(SOFT_LIMIT_DEFAULT), hard_limit: Amount(HARD_LIMIT_DEFAULT) }
    }

    pub fn add_bucket(&mut self, bucket: PortfolioBucket)
        ensures
            final(self).buckets@ == old(self).buckets@.push(bucket),
            final(self).route == old(self).route,
            final(self).soft_limit == old(self).soft_limit,
            final(self).hard_limit == old(self).hard_limit,
    {
        self.buckets.push(bucket);
    }

    pub fn total_free(&self) -> (r: Result<Amount>)
        ensures
            r == checked_total(bucket_frees(self.buckets@)),
    {
        let mut values: Vec<Amount> = Vec::new();
        let mut i: usize = 0;
        while i < self.buckets.len()
            invariant
                i <= self.buckets@.len(),
                values@ == bucket_frees(self.buckets@.take(i as int)),
            decreases self.buckets@.len() - i,
        {
            values.push(self.buckets[i].free);
            proof { assert(bucket_frees(self.buckets@.take(i + 1)) == bucket_frees(self.buckets@.take(i as int)).push(self.buckets@[i as int].free)); }
            i = i + 1;
        }
        proof { assert(self.buckets@.take(i as int) == self.buckets@); }
        checked_sum(values.as_slice())
    }

    pub fn total_reserved(&self) -> (r: Result<Amount>)
        ensures
            r == checked_total(bucket_reserves(self.buckets@)),
    {
        let mut values: Vec<Amount> = Vec::new();
        let mut i: usize = 0;
        while i < self.buckets.len()
            invariant
                i <= self.buckets@.len(),
                values@ == bucket_reserves(self.buckets@.take(i as int)),
            decreases self.buckets@.len() - i,
        {
            values.push(self.buckets[i].reserved);
            proof { assert(bucket_reserves(self.buckets@.take(i + 1)) == bucket_reserves(self.buckets@.take(i as int)).push(self.buckets@[i as int].reserved)); }
            i = i + 1;
        }
        proof { assert(self.buckets@.take(i as int) == self.buckets@); }
        checked_sum(values.as_slice())
    }

    pub fn total_effective_free(&self) -> (r: Result<Amount>)
        ensures
            r == effective_total(self.buckets@),
    {
        let mut acc = Amount(0);
        let mut i: usize = 0;
        while i < self.buckets.len()
            invariant
                i <= self.buckets@.len(),
                effective_total(self.buckets@.take(i as int)) == Ok::<Amount, EclipseError>(acc),
            decreases self.buckets@.len() - i,
        {
            proof { assert(self.buckets@.take(i + 1).drop_last() == self.buckets@.take(i as int)); }
            let step = match self.buckets[i].effective_free() {
                Ok(x) => acc.checked_add(x),
                Err(e) => Err(e),
            };
            match step {
                Ok(next) => acc = next,
                Err(e) => {
                    proof { lemma_effective_error_persists(self.buckets@, i + 1); }
                    return Err(e);
                },
            }
            i = i + 1;
        }
        proof { assert(self.buckets@.take(i as int) == self.buckets@); }
        Ok(acc)
    }

    /// Reserves `amount` in the first bucket whose effective free amount covers it and returns that
    /// bucket's name.
    pub fn reserve_from_first_fit(&mut self, amount: Amount) -> (r: Result<String>)
        ensures
            first_fit_effect(*old(self), *final(self), amount, r),
    {
        let ghost s = self.buckets@;
        let mut i: usize = 0;
        while i < self.buckets.len()
            invariant
                s == self.buckets@,
                s == old(self).buckets@,
                self.route == old(self).route,
                self.soft_limit == old(self).soft_limit,
                self.hard_limit == old(self).hard_limit,
                i <= s.len(),
                forall|j: int| 0 <= j < i ==> effective_free_spec(#[trigger] s[j]) is Ok && effective_free_spec(s[j])->Ok_0.0 < amount.0,
            decreases s.len() - i,
        {
            let effective = match self.buckets[i].effective_free() {
                Ok(e) => e,
                Err(e) => {
                    proof {
                        assert forall|k: int| !first_fit(s, amount, k) by {
                            if first_fit(s, amount, k) && k > i {
                                assert(effective_free_spec(s[i as int]) is Ok);
                            }
                        }
                    }
                    return Err(e);
                },
            };
            if effective.0 >= amount.0 {
                let mut bucket = self.buckets.remove(i);
                let rr = bucket.reserve(amount);
                let name = bucket.name.clone();
                self.buckets.insert(i, bucket);
                proof {
                    assert(first_fit(s, amount, i as int));
                    assert(self.buckets@ =~= s.update(i as int, bucket_reserve_post(s[i as int], amount).0));
                    assert forall|k: int| #[trigger] first_fit(s, amount, k) implies k == i by {
                        if k < i {
                        } else if k > i {
                            assert(effective_free_spec(s[i as int])->Ok_0.0 < amount.0);
                        }
                    }
                }
                return match rr {
                    Ok(()) => Ok(name),
                    Err(e) => Err(e),
                };
            }
            i = i + 1;
        }
        proof {
            assert forall|k: int| !first_fit(s, amount, k) by {
                if first_fit(s, amount, k) {
                    assert(effective_free_spec(s[k])->Ok_0.0 < amount.0);
                }
            }
        }
        Err(EclipseError::AmountUnderflow)
    }

    /// The reserved total as a share of the hard limit.
    pub fn utilization_bps(&self) -> (r: Result<BasisPoints>)
        ensures
            checked_total(bucket_reserves(self.buckets@)) is Err
                ==> r == Err::<BasisPoints, EclipseError>(checked_total(bucket_reserves(self.buckets@))->Err_0),
            checked_total(bucket_reserves(self.buckets@)) is Ok ==> r == Ok::<BasisPoints, EclipseError>(BasisPoints(
                utilization_spec(checked_total(bucket_reserves(self.buckets@))->Ok_0.0, self.hard_limit.0))),
    {
        let reserved = self.total_reserved()?;
        if self.hard_limit.0 == 0 {
            return Ok(BasisPoints(0));
        }
        let scaled = saturating_mul(reserved.0, 10_000);
        let ratio = scaled / self.hard_limit.0;
        let raw: u128 = if ratio > 10_000 { 10_000 } else { ratio };
        BasisPoints::new(raw as u32)
    }

    pub fn is_above_soft_limit(&self) -> (r: Result<bool>)
        ensures
            checked_total(bucket_reserves(self.buckets@)) is Err
                ==> r == Err::<bool, EclipseError>(checked_total(bucket_reserves(self.buckets@))->Err_0),
            checked_total(bucket_reserves(self.buckets@)) is Ok ==> r == Ok::<bool, EclipseError>(
                checked_total(bucket_reserves(self.buckets@))->Ok_0.0 > self.soft_limit.0),
    {
        let reserved = self.total_reserved()?;
        Ok(reserved.0 > self.soft_limit.0)
    }
}

/// A route's portfolio, or a fresh one when the route has none.
pub open spec fn route_or_default(routes: Map<Seq<char>, RoutePortfolio>, route: RouteId) -> RoutePortfolio {
    if routes.dom().contains(route@) {
        routes[route@]
    } else {
        RoutePortfolio {
            route,
            buckets: routes[route@].buckets,
            soft_limit: Amount(SOFT_LIMIT_DEFAULT),
            hard_limit: Amount(HARD_LIMIT_DEFAULT),
        }
    }
}

/// The route totals added up in order, the reserved ones or the free ones; the first failure stops
/// the sum.
pub open spec fn routes_total(s: Seq<RoutePortfolio>, reserved: bool) -> Result<Amount>
    decreases s.len(),
{
    if s.len() == 0 {
        Ok(Amount(0))
    } else {
        let part = if reserved { checked_total(bucket_reserves(s.last().buckets@)) } else { checked_total(bucket_frees(s.last().buckets@)) };
        match routes_total(s.drop_last(), reserved) {
            Err(e) => Err(e),
            Ok(acc) => match part {
                Err(e) => Err(e),
                Ok(x) => if acc.0 + x.0 > U128_MAX {
                    Err(EclipseError::AmountOverflow)
                } else {
                    Ok(Amount((acc.0 + x.0) as u128))
                },
            },
        }
    }
}

pub proof fn lemma_routes_error_persists(s: Seq<RoutePortfolio>, reserved: bool, k: int)
    requires
        0 <= k <= s.len(),
        routes_total(s.take(k), reserved) is Err,
    ensures
        routes_total(s, reserved) == routes_total(s.take(k), reserved),
    decreases s.len() - k,
{
    if k < s.len() {
        assert(s.take(k + 1).drop_last() == s.take(k));
        lemma_routes_error_persists(s, reserved, k + 1);
    } else {
        assert(s.take(k) == s);
    }
}

/// The route portfolios of one operator.
#[derive(Clone, Debug, PartialEq, Eq)]
pub struct OperatorPortfolio {
    pub operator: OperatorId,
    pub routes: KeyedStore<RoutePortfolio>,
}

impl Keyed for OperatorPortfolio {
    open spec fn key(&self) -> Seq<char> {
        self.operator@
    }

    fn key_str(&self) -> (r: &str) {
        self.operator.as_str()
    }
}

impl OperatorPortfolio {
    pub open spec fn wf(&self) -> bool {
        self.routes.wf()
    }

    pub open spec fn map(&self) -> Map<Seq<char>, RoutePortfolio> {
        self.routes.map()
    }

    pub fn new(operator: OperatorId) -> (r: OperatorPortfolio)
        ensures
            r.wf(),
            r.operator == operator,
            r.routes@ == Seq::<RoutePortfolio>::empty(),
    {
        OperatorPortfolio { operator, routes: KeyedStore::new() }
    }

    pub fn route(&self, route: &RouteId) -> (r: Option<&RoutePortfolio>)
        requires
            self.wf(),
        ensures
            self.map().dom().contains(route@) ==> r is Some && *r->Some_0 == self.map()[route@],
            !self.map().dom().contains(route@) ==> r is None,
    {
        match self.routes.find(route.as_str()) {
            Some(i) => {
                proof { lemma_store_map_index(self.routes@, i as int); }
                Some(self.routes.at(i))
            },
            None => None,
        }
    }

    /// The portfolio of `route`, opened empty with default limits if there is none; to be changed in
    /// place. A change that keeps the route keeps the portfolio well formed and replaces that entry.
    pub fn route_mut(&mut self, route: RouteId) -> (r: &mut RoutePortfolio)
        requires
            old(self).wf(),
        ensures
            old(self).map().dom().contains(route@) ==> *r == old(self).map()[route@],
            !old(self).map().dom().contains(route@) ==> r.route == route && r.buckets@.len() == 0
                && r.soft_limit.0 == SOFT_LIMIT_DEFAULT && r.hard_limit.0 == HARD_LIMIT_DEFAULT,
            final(self).operator == old(self).operator,
            final(r).key() == route@ ==> final(self).wf()
                && final(self).map() == old(self).map().insert(route@, *final(r)),
    {
        let fresh = RoutePortfolio::new(route.clone());
        self.routes.entry_or_insert(route.as_str(), fresh)
    }

    /// Adds a bucket to a route, opening the route's portfolio with default limits if needed.
    pub fn add_bucket(&mut self, route: RouteId, bucket: PortfolioBucket)
        requires
            old(self).wf(),
        ensures
            final(self).wf(),
            final(self).operator == old(self).operator,
            final(self).map() == old(self).map().insert(route@, RoutePortfolio {
                buckets: final(self).map()[route@].buckets,
                ..route_or_default(old(self).map(), route)
            }),
            old(self).map().dom().contains(route@)
                ==> final(self).map()[route@].buckets@ == old(self).map()[route@].buckets@.push(bucket),
            !old(self).map().dom().contains(route@) ==> final(self).map()[route@].buckets@ == seq![bucket],
    {
        match self.routes.find(route.as_str()) {
            Some(i) => {
                let ghost before = self.routes@;
                proof { lemma_store_map_index(before, i as int); }
                let mut p = self.routes.take(i);
                p.add_bucket(bucket);
                self.routes.put_back(i, p, Ghost(before));
            },
            None => {
                let mut p = RoutePortfolio::new(route);
                p.add_bucket(bucket);
                let _ = self.routes.insert_new(p);
                proof { assert(p.buckets@ =~= seq![bucket]); }
            },
        }
    }

    /// Reserves `amount` first-fit in a route's portfolio.
    pub fn reserve(&mut self, route: &RouteId, amount: Amount) -> (r: Result<String>)
        requires
            old(self).wf(),
        ensures
            final(self).wf(),
            final(self).operator == old(self).operator,
            !old(self).map().dom().contains(route@) ==> r == Err::<String, EclipseError>(EclipseError::RouteNotFound(route.0))
                && final(self).map() == old(self).map(),
            old(self).map().dom().contains(route@) ==> final(self).map() == old(self).map().insert(route@, final(self).map()[route@])
                && first_fit_effect(old(self).map()[route@], final(self).map()[route@], amount, r),
    {
        match self.routes.find(route.as_str()) {
            Some(i) => {
                let ghost before = self.routes@;
                proof { lemma_store_map_index(before, i as int); }
                let mut p = self.routes.take(i);
                let r = p.reserve_from_first_fit(amount);
                self.routes.put_back(i, p, Ghost(before));
                r
            },
            None => Err(EclipseError::RouteNotFound(route.0.clone())),
        }
    }

    fn aggregate(&self, reserved: bool) -> (r: Result<Amount>)
        ensures
            r == routes_total(self.routes@, reserved),
    {
        let mut acc = Amount(0);
        let mut i: usize = 0;
        while i < self.routes.len()
            invariant
                i <= self.routes@.len(),
                routes_total(self.routes@.take(i as int), reserved) == Ok::<Amount, EclipseError>(acc),
            decreases self.routes@.len() - i,
        {
            proof { assert(self.routes@.take(i + 1).drop_last() == self.routes@.take(i as int)); }
            let p = self.routes.at(i);
            let part = if reserved { p.total_reserved() } else { p.total_free() };
            let step = match part {
                Ok(x) => acc.checked_add(x),
                Err(e) => Err(e),
            };
            match step {
                Ok(next) => acc = next,
                Err(e) => {
                    proof { lemma_routes_error_persists(self.routes@, reserved, i + 1); }
                    return Err(e);
                },
            }
            i = i + 1;
        }
        proof { assert(self.routes@.take(i as int) == self.routes@); }
        Ok(acc)
    }

    pub fn aggregate_reserved(&self) -> (r: Result<Amount>)
        ensures
            r == routes_total(self.routes@, true),
    {
        self.aggregate(true)
    }

    pub fn aggregate_free(&self) -> (r: Result<Amount>)
        ensures
            r == routes_total(self.routes@, false),
    {
        self.aggregate(false)
    }

    pub fn route_count(&self) -> (r: usize)
        ensures
            r == self.routes@.len(),
    {
        self.routes.len()
    }
}

/// The portfolios of all operators.
#[derive(Clone, Debug)]
pub struct PortfolioRegistry {
    pub portfolios: KeyedStore<OperatorPortfolio>,
}

impl Default for PortfolioRegistry {
    fn default() -> (r: PortfolioRegistry)
        ensures
            r.wf(),
            r.portfolios@ == Seq::<OperatorPortfolio>::empty(),
    {
        PortfolioRegistry::new()
    }
}

impl PortfolioRegistry {
    pub open spec fn wf(&self) -> bool {
        &&& self.portfolios.wf()
        &&& forall|i: int| 0 <= i < self.portfolios@.len() ==> (#[trigger] self.portfolios@[i]).wf()
    }

    pub open spec fn map(&self) -> Map<Seq<char>, OperatorPortfolio> {
        self.portfolios.map()
    }

    pub fn new() -> (r: PortfolioRegistry)
        ensures
            r.wf(),
            r.portfolios@ == Seq::<OperatorPortfolio>::empty(),
    {
        PortfolioRegistry { portfolios: KeyedStore::new() }
    }

    proof fn lemma_put_back_wf(before: Seq<OperatorPortfolio>, i: int, a: OperatorPortfolio)
        requires
            sorted_by_key(before),
            forall|j: int| 0 <= j < before.len() ==> (#[trigger] before[j]).wf(),
            0 <= i < before.len(),
            a.wf(),
            a.key() == before[i].key(),
        ensures
            forall|j: int| 0 <= j < before.len() ==> (#[trigger] before.update(i, a)[j]).wf(),
    {
        assert forall|j: int| 0 <= j < before.len() implies (#[trigger] before.update(i, a)[j]).wf() by {
            if j != i {
                assert(before.update(i, a)[j] == before[j]);
            }
        }
    }

    /// Every entry of a sorted store is well formed when every value of its map is.
    proof fn lemma_values_wf(t: Seq<OperatorPortfolio>)
        requires
            sorted_by_key(t),
            forall|k: Seq<char>| #[trigger] store_map(t).dom().contains(k) ==> store_map(t)[k].wf(),
        ensures
            forall|j: int| 0 <= j < t.len() ==> (#[trigger] t[j]).wf(),
    {
        assert forall|j: int| 0 <= j < t.len() implies (#[trigger] t[j]).wf() by {
            lemma_store_map_index(t, j);
        }
    }

    /// The portfolio of `operator`, opened empty if there is none; to be changed in place. A change
    /// that keeps the operator and the portfolio's own well-formedness keeps the registry well
    /// formed and replaces that entry.
    pub fn portfolio_mut(&mut self, operator: OperatorId) -> (r: &mut OperatorPortfolio)
        requires
            old(self).wf(),
        ensures
            old(self).map().dom().contains(operator@) ==> *r == old(self).map()[operator@],
            !old(self).map().dom().contains(operator@) ==> r.operator == operator && r.routes@.len() == 0,
            final(r).key() == operator@ && final(r).wf() ==> final(self).wf()
                && final(self).map() == old(self).map().insert(operator@, *final(r)),
    {
        let ghost m = self.map();
        proof {
            assert forall|k: Seq<char>| #[trigger] m.dom().contains(k) implies m[k].wf() by {
                let j = crate::store::index_of_key(self.portfolios@, k);
                lemma_store_map_index(self.portfolios@, j);
            }
            assert forall|t: Seq<OperatorPortfolio>, v: OperatorPortfolio|
                sorted_by_key(t) && #[trigger] store_map(t) == #[trigger] m.insert(operator@, v) && v.wf()
                implies forall|j: int| 0 <= j < t.len() ==> (#[trigger] t[j]).wf() by {
                assert forall|k: Seq<char>| #[trigger] store_map(t).dom().contains(k) implies store_map(t)[k].wf() by {
                    if k != operator@ {
                        assert(m.dom().contains(k));
                    }
                }
                Self::lemma_values_wf(t);
            }
        }
        let fresh = OperatorPortfolio::new(operator.clone());
        self.portfolios.entry_or_insert(operator.as_str(), fresh)
    }

    pub fn portfolio(&self, operator: &OperatorId) -> (r: Option<&OperatorPortfolio>)
        requires
            self.wf(),
        ensures
            self.map().dom().contains(operator@) ==> r is Some && *r->Some_0 == self.map()[operator@] && r->Some_0.wf(),
            !self.map().dom().contains(operator@) ==> r is None,
    {
        match self.portfolios.find(operator.as_str()) {
            Some(i) => {
                proof { lemma_store_map_index(self.portfolios@, i as int); }
                Some(self.portfolios.at(i))
            },
            None => None,
        }
    }

    /// Adds a bucket to an operator's route, opening the operator's portfolio if needed.
    pub fn add_bucket(&mut self, operator: OperatorId, route: RouteId, bucket: PortfolioBucket)
        requires
            old(self).wf(),
        ensures
            final(self).wf(),
            final(self).map() == old(self).map().insert(operator@, final(self).map()[operator@]),
            final(self).map()[operator@].operator@ == operator@,
            old(self).map().dom().contains(operator@) ==> final(self).map()[operator@].map() == old(self).map()[operator@].map()
                .insert(route@, final(self).map()[operator@].map()[route@]),
            !old(self).map().dom().contains(operator@) ==> final(self).map()[operator@].map().dom() == set![route@],
            old(self).map().dom().contains(operator@) && old(self).map()[operator@].map().dom().contains(route@)
                ==> final(self).map()[operator@].map()[route@].buckets@
                    == old(self).map()[operator@].map()[route@].buckets@.push(bucket),
            !(old(self).map().dom().contains(operator@) && old(self).map()[operator@].map().dom().contains(route@))
                ==> final(self).map()[operator@].map()[route@].buckets@ == seq![bucket],
    {
        match self.portfolios.find(operator.as_str()) {
            Some(i) => {
                let ghost before = self.portfolios@;
                proof { lemma_store_map_index(before, i as int); assert(before[i as int].wf()); }
                let mut p = self.portfolios.take(i);
                p.add_bucket(route, bucket);
                proof { Self::lemma_put_back_wf(before, i as int, p); }
                self.portfolios.put_back(i, p, Ghost(before));
            },
            None => {
                let ghost before = self.portfolios@;
                let mut p = OperatorPortfolio::new(operator);
                p.add_bucket(route, bucket);
                proof { assert(p.map().dom() =~= set![route@]); }
                let _ = self.portfolios.insert_new(p);
                proof {
                    assert forall|j: int| 0 <= j < self.portfolios@.len() implies (#[trigger] self.portfolios@[j]).wf() by {
                        lemma_store_map_index(self.portfolios@, j);
                        if self.portfolios@[j].key() != p.key() {
                            assert(crate::store::has_key(before, self.portfolios@[j].key()));
                            let k = crate::store::index_of_key(before, self.portfolios@[j].key());
                            lemma_store_map_index(before, k);
                        }
                    }
                }
            },
        }
    }

    /// Reserves `amount` first-fit in an operator's route portfolio.
    pub fn reserve(&mut self, operator: &OperatorId, route: &RouteId, amount: Amount) -> (r: Result<String>)
        requires
            old(self).wf(),
        ensures
            final(self).wf(),
            !old(self).map().dom().contains(operator@)
                ==> r == Err::<String, EclipseError>(EclipseError::OperatorNotFound(operator.0)) && final(self).map() == old(self).map(),
            old(self).map().dom().contains(operator@) && !old(self).map()[operator@].map().dom().contains(route@)
                ==> r == Err::<String, EclipseError>(EclipseError::RouteNotFound(route.0)),
            old(self).map().dom().contains(operator@) ==> final(self).map() == old(self).map().insert(operator@, final(self).map()[operator@])
                && final(self).map()[operator@].operator == old(self).map()[operator@].operator,
            old(self).map().dom().contains(operator@) && !old(self).map()[operator@].map().dom().contains(route@)
                ==> final(self).map()[operator@].map() == old(self).map()[operator@].map(),
            old(self).map().dom().contains(operator@) && old(self).map()[operator@].map().dom().contains(route@)
                ==> final(self).map()[operator@].map() == old(self).map()[operator@].map().insert(route@, final(self).map()[operator@].map()[route@])
                && first_fit_effect(old(self).map()[operator@].map()[route@], final(self).map()[operator@].map()[route@], amount, r),
    {
        match self.portfolios.find(operator.as_str()) {
            Some(i) => {
                let ghost before = self.portfolios@;
                proof { lemma_store_map_index(before, i as int); assert(before[i as int].wf()); }
                let mut p = self.portfolios.take(i);
                let r = p.reserve(route, amount);
                proof { Self::lemma_put_back_wf(before, i as int, p); }
                self.portfolios.put_back(i, p, Ghost(before));
                r
            },
            None => Err(EclipseError::OperatorNotFound(operator.0.clone())),
        }
    }

    pub fn operator_count(&self) -> (r: usize)
        ensures
            r == self.portfolios@.len(),
    {
        self.portfolios.len()
    }
}

} // verus!
