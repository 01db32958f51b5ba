use crate::accounts::{fits, minus, plus};
use crate::amount::{floor_muldiv, Amount, BasisPoints, U128_MAX};
use crate::error::{EclipseError, Result};
use crate::ids::{AccountId, AssetId, OperatorId, RouteId};
use crate::store::{KeyedStore, Keyed, store_map, lemma_store_map_index, lemma_store_update, sorted_by_key};
use crate::text::push_str;
use vstd::prelude::*;

verus! {

#[derive(Debug, Clone, Copy, PartialEq, Eq, Structural)]
pub enum OperatorStatus {
    Active,
    Paused,
    Draining,
    Suspended,
}

pub open spec fn status_name(status: OperatorStatus) -> Seq<char> {
    match status {
        OperatorStatus::Active => "active"@,
        OperatorStatus::Paused => "paused"@,
        OperatorStatus::Draining => "draining"@,
        OperatorStatus::Suspended => "suspended"@,
    }
}

impl OperatorStatus {
    pub fn as_str(&self) -> (r: &'static str)
        ensures
            r@ == status_name(*self),
    {
        match self {
            OperatorStatus::Active => "active",
            OperatorStatus::Paused => "paused",
            OperatorStatus::Draining => "draining",
            OperatorStatus::Suspended => "suspended",
        }
    }

    pub fn can_bid(&self) -> (r: bool)
        ensures
            r == (*self == OperatorStatus::Active),
    {
        match self {
            OperatorStatus::Active => true,
            _ => false,
        }
    }
}

/// The capital an operator has pledged and how much of it is in use.
#[derive(Debug, Clone, Copy, PartialEq, Eq, Structural)]
pub struct GuaranteeState {
    pub pledged: Amount,
    pub locked: Amount,
    pub pending_release: Amount,
    pub slash_accumulator: Amount,
    pub reserve_floor_bps: BasisPoints,
}

/// The pledge that is free: pledged minus what is locked or pending release, less the reserve floor.
pub open spec fn guarantee_available(g: GuaranteeState) -> Result<Amount> {
    if !fits(g.locked, g.pending_release) {
        Err(EclipseError::AmountOverflow)
    } else if g.pledged.0 < g.locked.0 + g.pending_release.0 {
        Ok(Amount(0))
    } else if g.pledged.0 * g.reserve_floor_bps.0 > U128_MAX {
        Err(EclipseError::AmountOverflow)
    } else {
        let free = g.pledged.0 - g.locked.0 - g.pending_release.0;
        let floor = floor_muldiv(g.pledged.0, g.reserve_floor_bps.0 as u128, 10_000);
        if free <= floor { Ok(Amount(0)) } else { Ok(Amount((free - floor) as u128)) }
    }
}

pub open spec fn amount_min(a: Amount, b: Amount) -> Amount {
    if a.0 <= b.0 { a } else { b }
}

pub open spec fn pledge_post(g: GuaranteeState, amount: Amount) -> (GuaranteeState, Result<()>) {
    if fits(g.pledged, amount) {
        (GuaranteeState { pledged: plus(g.pledged, amount), ..g }, Ok(()))
    } else {
        (g, Err(EclipseError::AmountOverflow))
    }
}

/// Locks as much of `amount` as is available and reports how much that was.
pub open spec fn attach_post(g: GuaranteeState, amount: Amount) -> (GuaranteeState, Result<Amount>) {
    match guarantee_available(g) {
        Err(e) => (g, Err(e)),
        Ok(av) => {
            let applied = amount_min(av, amount);
            if fits(g.locked, applied) {
                (GuaranteeState { locked: plus(g.locked, applied), ..g }, Ok(applied))
            } else {
                (g, Err(EclipseError::AmountOverflow))
            }
        },
    }
}

pub open spec fn release_guarantee_post(g: GuaranteeState, amount: Amount) -> (GuaranteeState, Result<()>) {
    if g.locked.0 < amount.0 {
        (g, Err(EclipseError::AmountUnderflow))
    } else if !fits(g.pending_release, amount) {
        (GuaranteeState { locked: minus(g.locked, amount), ..g }, Err(EclipseError::AmountOverflow))
    } else {
        (GuaranteeState { locked: minus(g.locked, amount), pending_release: plus(g.pending_release, amount), ..g }, Ok(()))
    }
}

pub open spec fn mature_release_post(g: GuaranteeState, amount: Amount) -> (GuaranteeState, Result<()>) {
    if g.pending_release.0 < amount.0 {
        (g, Err(EclipseError::AmountUnderflow))
    } else {
        (GuaranteeState { pending_release: minus(g.pending_release, amount), ..g }, Ok(()))
    }
}

/// Takes up to `amount` out of the pledge; locked capital never exceeds what is left pledged.
pub open spec fn slash_post(g: GuaranteeState, amount: Amount) -> (GuaranteeState, Result<Amount>) {
    let slashable = amount_min(g.pledged, amount);
    let pledged = minus(g.pledged, slashable);
    if !fits(g.slash_accumulator, slashable) {
        (GuaranteeState { pledged, ..g }, Err(EclipseError::AmountOverflow))
    } else {
        (GuaranteeState {
            pledged,
            slash_accumulator: plus(g.slash_accumulator, slashable),
            locked: if g.locked.0 > pledged.0 { pledged } else { g.locked },
            ..g
        }, Ok(slashable))
    }
}

impl Default for GuaranteeState {
    fn default() -> (r: GuaranteeState)
        ensures
            r == (GuaranteeState { pledged: Amount(0), locked: Amount(0), pending_release: Amount(0),
                slash_accumulator: Amount(0), reserve_floor_bps: BasisPoints(0) }),
    {
        GuaranteeState {
            pledged: Amount(0),
            locked: Amount(0),
            pending_release: Amount(0),
            slash_accumulator: Amount(0),
            reserve_floor_bps: BasisPoints(0),
        }
    }
}

impl GuaranteeState {
    pub fn pledge(&mut self, amount: Amount) -> (r: Result<()>)
        ensures
            (*final(self), r) == pledge_post(*old(self), amount),
    {
        self.pledged = self.pledged.checked_add(amount)?;
        Ok(())
    }

    pub fn available(&self) -> (r: Result<Amount>)
        ensures
            r == guarantee_available(*self),
    {
        let used = self.locked.checked_add(self.pending_release)?;
        if self.pledged.0 < used.0 {
            return Ok(Amount(0));
        }
        let free = self.pledged.checked_sub(used)?;
        let floor = self.reserve_floor_bps.checked_amount_floor(self.pledged)?;
        if free.0 <= floor.0 {
            Ok(Amount(0))
        } else {
            free.checked_sub(floor)
        }
    }

    pub fn attach(&mut self, amount: Amount) -> (r: Result<Amount>)
        ensures
            (*final(self), r) == attach_post(*old(self), amount),
    {
        let available = self.available()?;
        let applied = available.min(amount);
        self.locked = self.locked.checked_add(applied)?;
        Ok(applied)
    }

    pub fn release(&mut self, amount: Amount) -> (r: Result<()>)
        ensures
            (*final(self), r) == release_guarantee_post(*old(self), amount),
    {
        if self.locked.0 < amount.0 {
            return Err(EclipseError::AmountUnderflow);
        }
        self.locked = self.locked.checked_sub(amount)?;
        self.pending_release = self.pending_release.checked_add(amount)?;
        Ok(())
    }

    pub fn mature_release(&mut self, amount: Amount) -> (r: Result<()>)
        ensures
            (*final(self), r) == mature_release_post(*old(self), amount),
    {
        if self.pending_release.0 < amount.0 {
            return Err(EclipseError::AmountUnderflow);
        }
        self.pending_release = self.pending_release.checked_sub(amount)?;
        Ok(())
    }

    pub fn slash(&mut self, amount: Amount) -> (r: Result<Amount>)
        ensures
            (*final(self), r) == slash_post(*old(self), amount),
    {
        let slashable = self.pledged.min(amount);
        self.pledged = self.pledged.checked_sub(slashable)?;
        self.slash_accumulator = self.slash_accumulator.checked_add(slashable)?;
        if self.locked.0 > self.pledged.0 {
            self.locked = self.pledged;
        }
        Ok(slashable)
    }
}

/// An attachment never locks more than was asked for nor more than was available.
pub proof fn law_attach_bounded(g: GuaranteeState, amount: Amount)
    requires
        attach_post(g, amount).1 is Ok,
    ensures
        attach_post(g, amount).1->Ok_0.0 <= amount.0,
        attach_post(g, amount).1->Ok_0.0 <= guarantee_available(g)->Ok_0.0,
        attach_post(g, amount).0.locked.0 == g.locked.0 + attach_post(g, amount).1->Ok_0.0,
        attach_post(g, amount).0.pledged == g.pledged,
{
}

/// After a successful slash the locked capital fits within what remains pledged,
/// and the pledge plus the slashed total is unchanged.
pub proof fn law_slash_keeps_lock_within_pledge(g: GuaranteeState, amount: Amount)
    requires
        slash_post(g, amount).1 is Ok,
    ensures
        slash_post(g, amount).0.locked.0 <= slash_post(g, amount).0.pledged.0,
        slash_post(g, amount).0.pledged.0 + slash_post(g, amount).0.slash_accumulator.0
            == g.pledged.0 + g.slash_accumulator.0,
{
}

/// Releasing and then maturing the same amount frees it from both locked and pending.
pub proof fn law_release_then_mature(g: GuaranteeState, amount: Amount)
    requires
        release_guarantee_post(g, amount).1 is Ok,
    ensures
        mature_release_post(release_guarantee_post(g, amount).0, amount).1 is Ok,
        mature_release_post(release_guarantee_post(g, amount).0, amount).0
            == (GuaranteeState { locked: minus(g.locked, amount), ..g }),
{
}

/// What an operator has committed on one route.
#[derive(Debug, PartialEq, Eq)]
pub struct ExposureCell {
    pub committed: Amount,
    pub settled: Amount,
    pub last_batch: Option<String>,
}

impl Clone for ExposureCell {
    fn clone(&self) -> (r: Self)
        ensures
            r == *self,
    {
        ExposureCell {
            committed: self.committed,
            settled: self.settled,
            last_batch: match &self.last_batch {
                Some(b) => Some(b.clone()),
                None => None,
            },
        }
    }
}

pub open spec fn empty_exposure() -> ExposureCell {
    ExposureCell { committed: Amount(0), settled: Amount(0), last_batch: None }
}

pub open spec fn commitment_post(c: ExposureCell, amount: Amount, batch: String) -> (ExposureCell, Result<()>) {
    if fits(c.committed, amount) {
        (ExposureCell { committed: plus(c.committed, amount), settled: c.settled, last_batch: Some(batch) }, Ok(()))
    } else {
        (c, Err(EclipseError::AmountOverflow))
    }
}

pub open spec fn exposure_settle_post(c: ExposureCell, amount: Amount) -> (ExposureCell, Result<()>) {
    let committed = if c.committed.0 < amount.0 { Amount(0) } else { minus(c.committed, amount) };
    if fits(c.settled, amount) {
        (ExposureCell { committed, settled: plus(c.settled, amount), last_batch: c.last_batch }, Ok(()))
    } else {
        (ExposureCell { committed, settled: c.settled, last_batch: c.last_batch }, Err(EclipseError::AmountOverflow))
    }
}

impl Default for ExposureCell {
    fn default() -> (r: ExposureCell)
        ensures
            r == empty_exposure(),
    {
        ExposureCell { committed: Amount(0), settled: Amount(0), last_batch: None }
    }
}

impl ExposureCell {
    pub fn add_commitment(&mut self, amount: Amount, batch: String) -> (r: Result<()>)
        ensures
            (*final(self), r) == commitment_post(*old(self), amount, batch),
    {
        self.committed = self.committed.checked_add(amount)?;
        self.last_batch = Some(batch);
        Ok(())
    }

    pub fn settle(&mut self, amount: Amount) -> (r: Result<()>)
        ensures
            (*final(self), r) == exposure_settle_post(*old(self), amount),
    {
        if self.committed.0 < amount.0 {
            self.committed = Amount(0);
        } else {
            self.committed = self.committed.checked_sub(amount)?;
        }
        self.settled = self.settled.checked_add(amount)?;
        Ok(())
    }
}

#[derive(Clone, Debug, PartialEq, Eq)]
pub struct RouteExposure {
    pub route: RouteId,
    pub cell: ExposureCell,
}

impl Keyed for RouteExposure {
    open spec fn key(&self) -> Seq<char> {
        self.route@
    }

    fn key_str(&self) -> (r: &str) {
        self.route.0.as_str()
    }
}

#[derive(Clone, Debug, PartialEq, Eq)]
pub struct AssetExposure {
    pub asset: AssetId,
    pub amount: Amount,
}

impl Keyed for AssetExposure {
    open spec fn key(&self) -> Seq<char> {
        self.asset@
    }

    fn key_str(&self) -> (r: &str) {
        self.asset.0.as_str()
    }
}

/// The committed total over a sequence of route exposures.
pub open spec fn committed_sum(s: Seq<RouteExposure>) -> int
    decreases s.len(),
{
    if s.len() == 0 { 0 } else { committed_sum(s.drop_last()) + s.last().cell.committed.0 }
}

pub proof fn lemma_committed_sum_prefix(s: Seq<RouteExposure>, i: int)
    requires
        0 <= i <= s.len(),
    ensures
        0 <= committed_sum(s.take(i)) <= committed_sum(s),
    decreases s.len() - i,
{
    if i < s.len() {
        lemma_committed_sum_prefix(s, i + 1);
        assert(s.take(i + 1).drop_last() == s.take(i));
        lemma_committed_sum_nonneg(s.take(i));
    } else {
        assert(s.take(i) == s);
        lemma_committed_sum_nonneg(s);
    }
}

pub proof fn lemma_committed_sum_nonneg(s: Seq<RouteExposure>)
    ensures
        committed_sum(s) >= 0,
    decreases s.len(),
{
    if s.len() > 0 {
        lemma_committed_sum_nonneg(s.drop_last());
    }
}

/// An operator's exposure by route and by target asset.
#[derive(Clone, Debug, PartialEq, Eq)]
pub struct ExposureState {
    pub by_route: KeyedStore<RouteExposure>,
    pub by_asset: KeyedStore<AssetExposure>,
    pub external_commitment: Amount,
}

impl Default for ExposureState {
    fn default() -> (r: ExposureState)
        ensures
            r.wf(),
            r.routes() == Map::<Seq<char>, ExposureCell>::empty(),
            r.assets() == Map::<Seq<char>, Amount>::empty(),
            r.external_commitment.0 == 0,
            r.by_route@.len() == 0,
            r.by_asset@.len() == 0,
    {
        ExposureState::new()
    }
}

impl ExposureState {
    pub open spec fn wf(&self) -> bool {
        self.by_route.wf() && self.by_asset.wf()
    }

    pub open spec fn routes(&self) -> Map<Seq<char>, ExposureCell> {
        store_map(self.by_route@).map_values(|e: RouteExposure| e.cell)
    }

    pub open spec fn route_cell(&self, route: Seq<char>) -> ExposureCell {
        if self.routes().dom().contains(route) { self.routes()[route] } else { empty_exposure() }
    }

    pub open spec fn assets(&self) -> Map<Seq<char>, Amount> {
        store_map(self.by_asset@).map_values(|e: AssetExposure| e.amount)
    }

    pub open spec fn asset_amount(&self, asset: Seq<char>) -> Amount {
        if self.assets().dom().contains(asset) { self.assets()[asset] } else { Amount(0) }
    }

    /// The result of committing `amount` on `route` towards `asset`.
    pub open spec fn commitment_result(&self, route: Seq<char>, asset: Seq<char>, amount: Amount) -> Result<()> {
        if !fits(self.route_cell(route).committed, amount) || !fits(self.asset_amount(asset), amount) {
            Err(EclipseError::AmountOverflow)
        } else {
            Ok(())
        }
    }

    /// The state after committing `amount` on `route` towards `asset`.
    pub open spec fn commitment_effect(&self, after: ExposureState, route: Seq<char>, asset: Seq<char>, amount: Amount, batch: String, r: Result<()>) -> bool {
        let (cell, rc) = commitment_post(self.route_cell(route), amount, batch);
        &&& after.wf()
        &&& after.external_commitment == self.external_commitment
        &&& after.routes() == self.routes().insert(route, cell)
        &&& rc is Err ==> r == rc && after.assets() == self.assets()
        &&& rc is Ok && fits(self.asset_amount(asset), amount)
            ==> r is Ok && after.assets() == self.assets().insert(asset, plus(self.asset_amount(asset), amount))
        &&& rc is Ok && !fits(self.asset_amount(asset), amount)
            ==> r == Err::<(), EclipseError>(EclipseError::AmountOverflow) && after.assets() == self.assets()
    }

    pub fn new() -> (r: ExposureState)
        ensures
            r.wf(),
            r.routes() == Map::<Seq<char>, ExposureCell>::empty(),
            r.assets() == Map::<Seq<char>, Amount>::empty(),
            r.external_commitment.0 == 0,
            r.by_route@.len() == 0,
            r.by_asset@.len() == 0,
    {
        let r = ExposureState { by_route: KeyedStore::new(), by_asset: KeyedStore::new(), external_commitment: Amount(0) };
        proof {
            assert(r.routes() =~= Map::<Seq<char>, ExposureCell>::empty());
            assert(r.assets() =~= Map::<Seq<char>, Amount>::empty());
        }
        r
    }

    pub fn add_route_commitment(&mut self, route: RouteId, target_asset: AssetId, amount: Amount, batch: String) -> (r: Result<()>)
        requires
            old(self).wf(),
        ensures
            old(self).commitment_effect(*final(self), route@, target_asset@, amount, batch, r),
    {
        let ghost route_view = route@;
        let i: usize = match self.by_route.find(route.as_str()) {
            Some(i) => {
                proof {
                    lemma_store_map_index(self.by_route@, i as int);
                    assert(self.routes() =~= self.routes().insert(route@, self.route_cell(route@)));
                }
                i
            },
            None => {
                let key = route.clone();
                let _ = self.by_route.insert_new(RouteExposure { route, cell: ExposureCell::default() });
                proof { assert(self.routes() =~= old(self).routes().insert(route_view, empty_exposure())); }
                match self.by_route.find(key.as_str()) {
                    Some(j) => {
                        proof { lemma_store_map_index(self.by_route@, j as int); }
                        j
                    },
                    None => {
                        proof { assert(self.by_route.map().dom().contains(route_view)); }
                        0
                    },
                }
            },
        };
        let ghost before = self.by_route@;
        let ghost mid = self.routes();
        let mut e = self.by_route.take(i);
        let rc = e.cell.add_commitment(amount, batch);
        proof {
            lemma_store_update(before, i as int, e);
            assert(store_map(before.update(i as int, e)).map_values(|x: RouteExposure| x.cell)
                =~= mid.insert(route_view, e.cell));
        }
        self.by_route.put_back(i, e, Ghost(before));
        proof { assert(self.routes() =~= old(self).routes().insert(route_view, e.cell)); }
        if rc.is_err() {
            return rc;
        }
        let current = self.asset_exposure(&target_asset);
        let next = current.checked_add(amount)?;
        self.set_asset(target_asset, next);
        Ok(())
    }

    fn set_asset(&mut self, asset: AssetId, amount: Amount)
        requires
            old(self).wf(),
        ensures
            final(self).wf(),
            final(self).assets() == old(self).assets().insert(asset@, amount),
            final(self).routes() == old(self).routes(),
            final(self).by_route@ == old(self).by_route@,
            final(self).external_commitment == old(self).external_commitment,
    {
        match self.by_asset.find(asset.as_str()) {
            Some(i) => {
                let ghost before = self.by_asset@;
                let ghost k = asset@;
                let mut e = self.by_asset.take(i);
                e.amount = amount;
                proof {
                    lemma_store_update(before, i as int, e);
                    assert(store_map(before.update(i as int, e)).map_values(|x: AssetExposure| x.amount)
                        =~= store_map(before).map_values(|x: AssetExposure| x.amount).insert(k, amount));
                }
                self.by_asset.put_back(i, e, Ghost(before));
            },
            None => {
                let ghost k = asset@;
                let _ = self.by_asset.insert_new(AssetExposure { asset, amount });
                proof { assert(self.assets() =~= old(self).assets().insert(k, amount)); }
            },
        }
    }

    pub fn add_external(&mut self, amount: Amount) -> (r: Result<()>)
        ensures
            fits(old(self).external_commitment, amount) ==> r is Ok
                && final(self).external_commitment == plus(old(self).external_commitment, amount),
            !fits(old(self).external_commitment, amount) ==> r == Err::<(), EclipseError>(EclipseError::AmountOverflow)
                && final(self).external_commitment == old(self).external_commitment,
            final(self).by_route@ == old(self).by_route@,
            final(self).by_asset@ == old(self).by_asset@,
    {
        self.external_commitment = self.external_commitment.checked_add(amount)?;
        Ok(())
    }

    /// Settles `amount` on `route` and lowers the exposure towards `asset`, each where it is recorded.
    pub fn settle_route(&mut self, route: &RouteId, target_asset: &AssetId, amount: Amount) -> (r: Result<()>)
        requires
            old(self).wf(),
        ensures
            final(self).wf(),
            final(self).external_commitment == old(self).external_commitment,
            !old(self).routes().dom().contains(route@) ==> final(self).routes() == old(self).routes(),
            old(self).routes().dom().contains(route@) ==> final(self).routes()
                == old(self).routes().insert(route@, exposure_settle_post(old(self).routes()[route@], amount).0),
            old(self).routes().dom().contains(route@) && exposure_settle_post(old(self).routes()[route@], amount).1 is Err
                ==> r == exposure_settle_post(old(self).routes()[route@], amount).1 && final(self).assets() == old(self).assets(),
            !(old(self).routes().dom().contains(route@) && exposure_settle_post(old(self).routes()[route@], amount).1 is Err)
                ==> r is Ok && (old(self).assets().dom().contains(target_asset@) ==> final(self).assets()
                    == old(self).assets().insert(target_asset@, Amount(if amount.0 > old(self).assets()[target_asset@].0 { 0 }
                        else { (old(self).assets()[target_asset@].0 - amount.0) as u128 })))
                && (!old(self).assets().dom().contains(target_asset@) ==> final(self).assets() == old(self).assets()),
    {
        match self.by_route.find(route.as_str()) {
            Some(i) => {
                let ghost before = self.by_route@;
                let ghost k = route@;
                proof { lemma_store_map_index(before, i as int); }
                let mut e = self.by_route.take(i);
                let rc = e.cell.settle(amount);
                proof {
                    lemma_store_update(before, i as int, e);
                    assert(store_map(before.update(i as int, e)).map_values(|x: RouteExposure| x.cell)
                        =~= store_map(before).map_values(|x: RouteExposure| x.cell).insert(k, e.cell));
                }
                self.by_route.put_back(i, e, Ghost(before));
                if rc.is_err() {
                    return rc;
                }
            },
            None => {},
        }
        match self.by_asset.find(target_asset.as_str()) {
            Some(i) => {
                let ghost before = self.by_asset@;
                let ghost k = target_asset@;
                proof { lemma_store_map_index(before, i as int); }
                let mut e = self.by_asset.take(i);
                e.amount = e.amount.saturating_sub(amount);
                proof {
                    lemma_store_update(before, i as int, e);
                    assert(store_map(before.update(i as int, e)).map_values(|x: AssetExposure| x.amount)
                        =~= store_map(before).map_values(|x: AssetExposure| x.amount).insert(k, e.amount));
                }
                self.by_asset.put_back(i, e, Ghost(before));
            },
            None => {},
        }
        Ok(())
    }

    pub fn route_exposure(&self, route: &RouteId) -> (r: Amount)
        requires
            self.wf(),
        ensures
            r == self.route_cell(route@).committed,
    {
        match self.by_route.find(route.as_str()) {
            Some(i) => {
                proof { lemma_store_map_index(self.by_route@, i as int); }
                self.by_route.at(i).cell.committed
            },
            None => Amount(0),
        }
    }

    pub fn asset_exposure(&self, asset: &AssetId) -> (r: Amount)
        requires
            self.wf(),
        ensures
            r == self.asset_amount(asset@),
    {
        match self.by_asset.find(asset.as_str()) {
            Some(i) => {
                proof { lemma_store_map_index(self.by_asset@, i as int); }
                self.by_asset.at(i).amount
            },
            None => Amount(0),
        }
    }

    pub fn total_route_exposure(&self) -> (r: Result<Amount>)
        ensures
            committed_sum(self.by_route@) <= U128_MAX ==> r == Ok::<Amount, EclipseError>(Amount(committed_sum(self.by_route@) as u128)),
            committed_sum(self.by_route@) > U128_MAX ==> r == Err::<Amount, EclipseError>(EclipseError::AmountOverflow),
    {
        let ghost s = self.by_route@;
        let mut acc = Amount(0);
        let mut i: usize = 0;
        while i < self.by_route.len()
            invariant
                s == self.by_route@,
                i <= s.len(),
                acc.0 == committed_sum(s.take(i as int)),
            decreases s.len() - i,
        {
            proof {
                assert(s.take(i + 1).drop_last() == s.take(i as int));
                lemma_committed_sum_prefix(s, i + 1);
            }
            match acc.checked_add(self.by_route.at(i).cell.committed) {
                Ok(next) => acc = next,
                Err(e) => return Err(e),
            }
            i = i + 1;
        }
        proof { assert(s.take(i as int) == s); }
        Ok(acc)
    }

    pub fn total_exposure(&self) -> (r: Result<Amount>)
        ensures
            committed_sum(self.by_route@) + self.external_commitment.0 <= U128_MAX ==> r == Ok::<Amount, EclipseError>(
                Amount((committed_sum(self.by_route@) + self.external_commitment.0) as u128)),
            committed_sum(self.by_route@) + self.external_commitment.0 > U128_MAX
                ==> r == Err::<Amount, EclipseError>(EclipseError::AmountOverflow),
    {
        proof { lemma_committed_sum_nonneg(self.by_route@); }
        self.total_route_exposure()?.checked_add(self.external_commitment)
    }

    /// One view per route, in route order.
    pub fn route_views(&self) -> (r: Vec<RouteExposureView>)
        ensures
            r@.len() == self.by_route@.len(),
            forall|i: int| 0 <= i < r@.len() ==> (#[trigger] r@[i]).describes(self.by_route@[i]),
    {
        let mut out: Vec<RouteExposureView> = Vec::new();
        let mut i: usize = 0;
        while i < self.by_route.len()
            invariant
                i <= self.by_route@.len(),
                out@.len() == i,
                forall|j: int| 0 <= j < i ==> (#[trigger] out@[j]).describes(self.by_route@[j]),
            decreases self.by_route@.len() - i,
        {
            let e = self.by_route.at(i);
            out.push(RouteExposureView {
                route: e.route.clone(),
                committed: e.cell.committed.raw(),
                settled: e.cell.settled.raw(),
                last_batch: match &e.cell.last_batch {
                    Some(b) => Some(b.clone()),
                    None => None,
                },
            });
            i = i + 1;
        }
        out
    }
}

/// A flattened route exposure.
#[derive(Debug, PartialEq, Eq)]
pub struct RouteExposureView {
    pub route: RouteId,
    pub committed: u128,
    pub settled: u128,
    pub last_batch: Option<String>,
}

impl Clone for RouteExposureView {
    fn clone(&self) -> (r: Self)
        ensures
            r == *self,
    {
        RouteExposureView {
            route: self.route.clone(),
            committed: self.committed,
            settled: self.settled,
            last_batch: match &self.last_batch {
                Some(s) => Some(s.clone()),
                None => None,
            },
        }
    }
}

/// A copy of every RouteExposureView in order.
fn clone_exposure_views(v: &Vec<RouteExposureView>) -> (r: Vec<RouteExposureView>)
    ensures
        r@ == v@,
{
    let mut out: Vec<RouteExposureView> = Vec::new();
    let mut i: usize = 0;
    while i < v.len()
        invariant
            i <= v@.len(),
            out@ == v@.take(i as int),
        decreases v@.len() - i,
    {
        out.push(v[i].clone());
        proof { assert(v@.take(i + 1) == v@.take(i as int).push(v@[i as int])); }
        i = i + 1;
    }
    proof { assert(v@.take(i as int) == v@); }
    out
}

impl RouteExposureView {
    pub open spec fn describes(&self, e: RouteExposure) -> bool {
        &&& self.route == e.route
        &&& self.committed == e.cell.committed.0
        &&& self.settled == e.cell.settled.0
        &&& self.last_batch == e.cell.last_batch
    }
}


/// An operator: its pledge, its exposure and its standing.
#[derive(Clone, Debug, PartialEq, Eq)]
pub struct OperatorProfile {
    pub id: OperatorId,
    pub display_name: String,
    pub lane: String,
    pub status: OperatorStatus,
    pub guarantee: GuaranteeState,
    pub exposure: ExposureState,
    pub fee_account: AccountId,
    pub fee_floor_bps: BasisPoints,
    pub reliability_bps: BasisPoints,
    pub max_open_batches: u32,
    pub tags: Vec<String>,
}

impl Keyed for OperatorProfile {
    open spec fn key(&self) -> Seq<char> {
        self.id@
    }

    fn key_str(&self) -> (r: &str) {
        self.id.0.as_str()
    }
}

/// What an attachment asked for and what it locked.
#[derive(Debug, PartialEq, Eq)]
pub struct GuaranteeAttachment {
    pub requested: Amount,
    pub attached: Amount,
    pub route: RouteId,
}

impl Clone for GuaranteeAttachment {
    fn clone(&self) -> (r: Self)
        ensures
            r == *self,
    {
        GuaranteeAttachment { requested: self.requested, attached: self.attached, route: self.route.clone() }
    }
}

impl OperatorProfile {
    pub open spec fn wf(&self) -> bool {
        self.exposure.wf()
    }

    /// Everything but the guarantee and the exposure agrees.
    pub open spec fn same_identity(&self, other: OperatorProfile) -> bool {
        &&& self.id == other.id
        &&& self.display_name == other.display_name
        &&& self.lane == other.lane
        &&& self.status == other.status
        &&& self.fee_account == other.fee_account
        &&& self.fee_floor_bps == other.fee_floor_bps
        &&& self.reliability_bps == other.reliability_bps
        &&& self.max_open_batches == other.max_open_batches
        &&& self.tags == other.tags
    }

    /// The profile after `attach_guarantee`, with its result.
    pub open spec fn attach_effect(&self, after: OperatorProfile, route: RouteId, asset: Seq<char>, amount: Amount,
        batch: String, r: Result<GuaranteeAttachment>) -> bool {
        let (g, ra) = attach_post(self.guarantee, amount);
        let rc = self.exposure.commitment_result(route@, asset, amount);
        &&& after.same_identity(*self)
        &&& after.wf()
        &&& after.guarantee == g
        &&& ra is Err ==> r == Err::<GuaranteeAttachment, EclipseError>(ra->Err_0) && after.exposure == self.exposure
        &&& ra is Ok ==> self.exposure.commitment_effect(after.exposure, route@, asset, amount, batch, rc)
        &&& ra is Ok && rc is Ok ==> r == Ok::<GuaranteeAttachment, EclipseError>(
            GuaranteeAttachment { requested: amount, attached: ra->Ok_0, route })
        &&& ra is Ok && rc is Err ==> r == Err::<GuaranteeAttachment, EclipseError>(rc->Err_0)
    }

    /// The profile after `allocate_external_commitment`, with its result.
    pub open spec fn external_effect(&self, after: OperatorProfile, amount: Amount, r: Result<()>) -> bool {
        let (g, ra) = attach_post(self.guarantee, amount);
        &&& after.same_identity(*self)
        &&& after.wf()
        &&& after.guarantee == g
        &&& after.exposure.by_route@ == self.exposure.by_route@
        &&& after.exposure.by_asset@ == self.exposure.by_asset@
        &&& ra is Err ==> r == Err::<(), EclipseError>(ra->Err_0) && after.exposure.external_commitment == self.exposure.external_commitment
        &&& ra is Ok && fits(self.exposure.external_commitment, ra->Ok_0) ==> r is Ok
            && after.exposure.external_commitment == plus(self.exposure.external_commitment, ra->Ok_0)
        &&& ra is Ok && !fits(self.exposure.external_commitment, ra->Ok_0)
            ==> r == Err::<(), EclipseError>(EclipseError::AmountOverflow)
            && after.exposure.external_commitment == self.exposure.external_commitment
    }

    pub fn new(id: OperatorId, display_name: &str, lane: &str, fee_account: AccountId) -> (r: OperatorProfile)
        ensures
            r.wf(),
            r.id == id,
            r.display_name@ == display_name@,
            r.lane@ == lane@,
            r.status == OperatorStatus::Active,
            r.guarantee == (GuaranteeState { pledged: Amount(0), locked: Amount(0), pending_release: Amount(0),
                slash_accumulator: Amount(0), reserve_floor_bps: BasisPoints(0) }),
            r.exposure.routes() == Map::<Seq<char>, ExposureCell>::empty(),
            r.exposure.assets() == Map::<Seq<char>, Amount>::empty(),
            r.exposure.by_route@.len() == 0,
            r.exposure.external_commitment.0 == 0,
            r.fee_account == fee_account,
            r.fee_floor_bps.0 == 0,
            r.reliability_bps.0 == 10_000,
            r.max_open_batches == 64,
            r.tags@.len() == 0,
    {
        let exposure = ExposureState::new();
        OperatorProfile {
            id,
            display_name: display_name.to_owned(),
            lane: lane.to_owned(),
            status: OperatorStatus::Active,
            guarantee: GuaranteeState::default(),
            exposure,
            fee_account,
            fee_floor_bps: BasisPoints(0),
            reliability_bps: BasisPoints(10_000),
            max_open_batches: 64,
            tags: Vec::new(),
        }
    }

    pub fn can_bid(&self) -> (r: bool)
        ensures
            r == (self.status == OperatorStatus::Active),
    {
        self.status.can_bid()
    }

    pub fn available_guarantee(&self) -> (r: Result<Amount>)
        ensures
            r == guarantee_available(self.guarantee),
    {
        self.guarantee.available()
    }

    pub fn pledge(&mut self, amount: Amount) -> (r: Result<()>)
        ensures
            final(self).same_identity(*old(self)),
            final(self).exposure == old(self).exposure,
            (final(self).guarantee, r) == pledge_post(old(self).guarantee, amount),
    {
        self.guarantee.pledge(amount)
    }

    pub fn attach_guarantee(&mut self, route: RouteId, target_asset: AssetId, amount: Amount, batch: String) -> (r: Result<GuaranteeAttachment>)
        requires
            old(self).wf(),
        ensures
            old(self).attach_effect(*final(self), route, target_asset@, amount, batch, r),
    {
        let attached = self.guarantee.attach(amount)?;
        let rc = self.exposure.add_route_commitment(route.clone(), target_asset, amount, batch);
        match rc {
            Ok(()) => Ok(GuaranteeAttachment { requested: amount, attached, route }),
            Err(e) => Err(e),
        }
    }

    pub fn allocate_external_commitment(&mut self, amount: Amount) -> (r: Result<()>)
        requires
            old(self).wf(),
        ensures
            old(self).external_effect(*final(self), amount, r),
    {
        let attached = self.guarantee.attach(amount)?;
        self.exposure.add_external(attached)?;
        Ok(())
    }

    pub fn settle_route(&mut self, route: &RouteId, target_asset: &AssetId, amount: Amount) -> (r: Result<()>)
        requires
            old(self).wf(),
        ensures
            final(self).wf(),
            final(self).same_identity(*old(self)),
            final(self).guarantee == old(self).guarantee,
            final(self).exposure.external_commitment == old(self).exposure.external_commitment,
            old(self).exposure.routes().dom().contains(route@) ==> final(self).exposure.routes()
                == old(self).exposure.routes().insert(route@, exposure_settle_post(old(self).exposure.routes()[route@], amount).0),
            !old(self).exposure.routes().dom().contains(route@) ==> final(self).exposure.routes() == old(self).exposure.routes(),
    {
        self.exposure.settle_route(route, target_asset, amount)
    }

    pub fn set_status(&mut self, status: OperatorStatus)
        ensures
            *final(self) == (OperatorProfile { status, ..*old(self) }),
    {
        self.status = status;
    }
}

/// The operators, ordered by identifier.
#[derive(Clone, Debug)]
pub struct OperatorBook {
    pub operators: KeyedStore<OperatorProfile>,
}

impl Default for OperatorBook {
    fn default() -> (r: OperatorBook)
        ensures
            r.wf(),
            r.map() == Map::<Seq<char>, OperatorProfile>::empty(),
            r.entries().len() == 0,
    {
        OperatorBook::new()
    }
}

impl OperatorBook {
    pub open spec fn entries(&self) -> Seq<OperatorProfile> {
        self.operators@
    }

    pub open spec fn wf(&self) -> bool {
        &&& self.operators.wf()
        &&& forall|i: int| 0 <= i < self.operators@.len() ==> (#[trigger] self.operators@[i]).wf()
    }

    pub open spec fn map(&self) -> Map<Seq<char>, OperatorProfile> {
        store_map(self.entries())
    }

    /// Only the operator under `id` changed, to the value it now has.
    pub open spec fn changed_only(&self, before: OperatorBook, id: Seq<char>) -> bool {
        &&& before.map().dom().contains(id)
        &&& self.map() == before.map().insert(id, self.map()[id])
    }

    proof fn lemma_put_back_wf(before: Seq<OperatorProfile>, i: int, a: OperatorProfile)
        requires
            sorted_by_key(before),
            forall|j: int| 0 <= j < before.len() ==> (#[trigger] before[j]).wf(),
            0 <= i < before.len(),
            a.wf(),
            a.key() == before[i].key(),
        ensures
            forall|j: int| 0 <= j < before.len() ==> (#[trigger] before.update(i, a)[j]).wf(),
            store_map(before)[a.key()] == before[i],
    {
        lemma_store_update(before, i, a);
        lemma_store_map_index(before, i);
        assert forall|j: int| 0 <= j < before.len() implies (#[trigger] before.update(i, a)[j]).wf() by {
            if j != i {
                assert(before.update(i, a)[j] == before[j]);
            }
        }
    }

    pub proof fn lemma_wf_map(&self, id: Seq<char>)
        requires
            self.wf(),
            self.map().dom().contains(id),
        ensures
            self.map()[id].wf(),
            self.map()[id].id@ == id,
    {
        let i = crate::store::index_of_key(self.entries(), id);
        lemma_store_map_index(self.entries(), i);
    }

    pub fn new() -> (r: OperatorBook)
        ensures
            r.wf(),
            r.map() == Map::<Seq<char>, OperatorProfile>::empty(),
            r.entries().len() == 0,
    {
        let r = OperatorBook { operators: KeyedStore::new() };
        proof { assert(r.map() =~= Map::<Seq<char>, OperatorProfile>::empty()); }
        r
    }

    pub fn insert(&mut self, operator: OperatorProfile) -> (r: Result<()>)
        requires
            old(self).wf(),
            operator.wf(),
        ensures
            final(self).wf(),
            old(self).map().dom().contains(operator.id@) ==> r == Err::<(), EclipseError>(EclipseError::DuplicateId(operator.id.0))
                && final(self).map() == old(self).map() && final(self).entries() == old(self).entries(),
            !old(self).map().dom().contains(operator.id@) ==> r is Ok
                && final(self).map() == old(self).map().insert(operator.id@, operator)
                && final(self).entries().len() == old(self).entries().len() + 1,
    {
        let id = operator.id.0.clone();
        let ghost before = self.operators@;
        let ghost op = operator;
        match self.operators.insert_new(operator) {
            Ok(()) => {
                proof {
                    assert forall|i: int| 0 <= i < self.operators@.len() implies (#[trigger] self.operators@[i]).wf() by {
                        let k = self.operators@[i].key();
                        lemma_store_map_index(self.operators@, i);
                        assert(self.operators.map()[k] == self.operators@[i]);
                        if k != op.id@ {
                            assert(store_map(before).dom().contains(k));
                            let j = crate::store::index_of_key(before, k);
                            lemma_store_map_index(before, j);
                            assert(before[j].wf());
                        }
                    }
                }
                Ok(())
            },
            Err(_) => Err(EclipseError::DuplicateId(id)),
        }
    }

    /// The operator under `id`, to be changed in place. A change that keeps its identifier and its
    /// own well-formedness keeps the book well formed and replaces that operator in it.
    pub fn get_mut(&mut self, id: &OperatorId) -> (r: Result<&mut OperatorProfile>)
        requires
            old(self).wf(),
        ensures
            !old(self).map().dom().contains(id@) ==> r == Err::<&mut OperatorProfile, EclipseError>(EclipseError::OperatorNotFound(id.0))
                && *final(self) == *old(self),
            old(self).map().dom().contains(id@) ==> r is Ok && *r->Ok_0 == old(self).map()[id@],
            r is Ok && final(r->Ok_0).key() == id@ && final(r->Ok_0).wf() ==> final(self).wf()
                && final(self).map() == old(self).map().insert(id@, *final(r->Ok_0)),
    {
        let ghost before = self.operators@;
        proof {
            let x = crate::store::index_of_key(before, id@);
            assert(crate::store::has_key(before, id@) ==> 0 <= x < before.len());
            assert forall|v: OperatorProfile, j: int| 0 <= x < before.len() && v.wf() && 0 <= j < before.len()
                implies (#[trigger] before.update(x, v)[j]).wf() by {
                if j != x {
                    assert(before[j].wf());
                }
            }
        }
        match self.operators.get_mut(id.as_str()) {
            Some(v) => Ok(v),
            None => Err(EclipseError::OperatorNotFound(id.0.clone())),
        }
    }

    pub fn get(&self, id: &OperatorId) -> (r: Result<&OperatorProfile>)
        requires
            self.wf(),
        ensures
            self.map().dom().contains(id@) ==> r is Ok && *r->Ok_0 == self.map()[id@],
            !self.map().dom().contains(id@) ==> r == Err::<&OperatorProfile, EclipseError>(EclipseError::OperatorNotFound(id.0)),
    {
        match self.operators.find(id.as_str()) {
            Some(i) => {
                proof { lemma_store_map_index(self.operators@, i as int); }
                Ok(self.operators.at(i))
            },
            None => Err(EclipseError::OperatorNotFound(id.0.clone())),
        }
    }

    pub fn pledge(&mut self, id: &OperatorId, amount: Amount) -> (r: Result<()>)
        requires
            old(self).wf(),
        ensures
            final(self).wf(),
            !old(self).map().dom().contains(id@) ==> r == Err::<(), EclipseError>(EclipseError::OperatorNotFound(id.0))
                && final(self).map() == old(self).map(),
            old(self).map().dom().contains(id@) ==> final(self).changed_only(*old(self), id@)
                && final(self).map()[id@].same_identity(old(self).map()[id@])
                && final(self).map()[id@].exposure == old(self).map()[id@].exposure
                && (final(self).map()[id@].guarantee, r) == pledge_post(old(self).map()[id@].guarantee, amount),
    {
        match self.operators.find(id.as_str()) {
            Some(i) => {
                let ghost before = self.operators@;
                proof { lemma_store_map_index(before, i as int); assert(before[i as int].wf()); }
                let mut a = self.operators.take(i);
                let r = a.pledge(amount);
                proof { Self::lemma_put_back_wf(before, i as int, a); }
                self.operators.put_back(i, a, Ghost(before));
                proof { lemma_store_map_index(self.entries(), i as int); }
                r
            },
            None => Err(EclipseError::OperatorNotFound(id.0.clone())),
        }
    }

    pub fn set_status(&mut self, id: &OperatorId, status: OperatorStatus) -> (r: Result<()>)
        requires
            old(self).wf(),
        ensures
            final(self).wf(),
            !old(self).map().dom().contains(id@) ==> r == Err::<(), EclipseError>(EclipseError::OperatorNotFound(id.0))
                && final(self).map() == old(self).map(),
            old(self).map().dom().contains(id@) ==> r is Ok && final(self).changed_only(*old(self), id@)
                && final(self).map()[id@] == (OperatorProfile { status, ..old(self).map()[id@] }),
    {
        match self.operators.find(id.as_str()) {
            Some(i) => {
                let ghost before = self.operators@;
                proof { lemma_store_map_index(before, i as int); assert(before[i as int].wf()); }
                let mut a = self.operators.take(i);
                a.set_status(status);
                proof { Self::lemma_put_back_wf(before, i as int, a); }
                self.operators.put_back(i, a, Ghost(before));
                proof { lemma_store_map_index(self.entries(), i as int); }
                Ok(())
            },
            None => Err(EclipseError::OperatorNotFound(id.0.clone())),
        }
    }

    pub fn available_guarantee(&self, id: &OperatorId) -> (r: Result<Amount>)
        requires
            self.wf(),
        ensures
            self.map().dom().contains(id@) ==> r == guarantee_available(self.map()[id@].guarantee),
            !self.map().dom().contains(id@) ==> r == Err::<Amount, EclipseError>(EclipseError::OperatorNotFound(id.0)),
    {
        self.get(id)?.available_guarantee()
    }

    /// What `attach_guarantee` makes of the operators `before`.
    pub open spec fn attach_outcome(before: Map<Seq<char>, OperatorProfile>, after: Map<Seq<char>, OperatorProfile>,
        id: OperatorId, route: RouteId, target_asset: Seq<char>, amount: Amount, batch: String,
        r: Result<GuaranteeAttachment>) -> bool {
        if !before.dom().contains(id@) {
            r == Err::<GuaranteeAttachment, EclipseError>(EclipseError::OperatorNotFound(id.0)) && after == before
        } else {
            &&& after == before.insert(id@, after[id@])
            &&& before[id@].attach_effect(after[id@], route, target_asset, amount, batch, r)
        }
    }

    pub fn attach_guarantee(&mut self, id: &OperatorId, route: RouteId, target_asset: AssetId, amount: Amount, batch: String) -> (r: Result<GuaranteeAttachment>)
        requires
            old(self).wf(),
        ensures
            final(self).wf(),
            !old(self).map().dom().contains(id@) ==> r == Err::<GuaranteeAttachment, EclipseError>(EclipseError::OperatorNotFound(id.0))
                && final(self).map() == old(self).map(),
            old(self).map().dom().contains(id@) ==> final(self).changed_only(*old(self), id@)
                && old(self).map()[id@].attach_effect(final(self).map()[id@], route, target_asset@, amount, batch, r),
    {
        match self.operators.find(id.as_str()) {
            Some(i) => {
                let ghost before = self.operators@;
                proof { lemma_store_map_index(before, i as int); assert(before[i as int].wf()); }
                let mut a = self.operators.take(i);
                let r = a.attach_guarantee(route, target_asset, amount, batch);
                proof { Self::lemma_put_back_wf(before, i as int, a); }
                self.operators.put_back(i, a, Ghost(before));
                proof { lemma_store_map_index(self.entries(), i as int); }
                r
            },
            None => Err(EclipseError::OperatorNotFound(id.0.clone())),
        }
    }

    pub fn allocate_external_commitment(&mut self, id: &OperatorId, amount: Amount) -> (r: Result<()>)
        requires
            old(self).wf(),
        ensures
            final(self).wf(),
            !old(self).map().dom().contains(id@) ==> r == Err::<(), EclipseError>(EclipseError::OperatorNotFound(id.0))
                && final(self).map() == old(self).map(),
            old(self).map().dom().contains(id@) ==> final(self).changed_only(*old(self), id@)
                && old(self).map()[id@].external_effect(final(self).map()[id@], amount, r),
    {
        match self.operators.find(id.as_str()) {
            Some(i) => {
                let ghost before = self.operators@;
                proof { lemma_store_map_index(before, i as int); assert(before[i as int].wf()); }
                let mut a = self.operators.take(i);
                let r = a.allocate_external_commitment(amount);
                proof { Self::lemma_put_back_wf(before, i as int, a); }
                self.operators.put_back(i, a, Ghost(before));
                proof { lemma_store_map_index(self.entries(), i as int); }
                r
            },
            None => Err(EclipseError::OperatorNotFound(id.0.clone())),
        }
    }

    /// The operators in identifier order.
    pub fn list(&self) -> (r: Vec<&OperatorProfile>)
        ensures
            r@.len() == self.entries().len(),
            forall|i: int| 0 <= i < r@.len() ==> *#[trigger] r@[i] == self.entries()[i],
    {
        let mut out: Vec<&OperatorProfile> = Vec::new();
        let mut i: usize = 0;
        while i < self.operators.len()
            invariant
                i <= self.operators@.len(),
                out@.len() == i,
                forall|j: int| 0 <= j < i ==> *#[trigger] out@[j] == self.operators@[j],
            decreases self.operators@.len() - i,
        {
            out.push(self.operators.at(i));
            i = i + 1;
        }
        out
    }

    pub fn views(&self) -> (r: Vec<OperatorView>)
        ensures
            r@.len() == self.entries().len(),
            forall|i: int| 0 <= i < r@.len() ==> (#[trigger] r@[i]).describes(self.entries()[i]),
    {
        let mut out: Vec<OperatorView> = Vec::new();
        let mut i: usize = 0;
        while i < self.operators.len()
            invariant
                i <= self.operators@.len(),
                out@.len() == i,
                forall|j: int| 0 <= j < i ==> (#[trigger] out@[j]).describes(self.operators@[j]),
            decreases self.operators@.len() - i,
        {
            out.push(OperatorView::from_operator(self.operators.at(i)));
            i = i + 1;
        }
        out
    }
}

/// A flattened operator.
#[derive(Debug, PartialEq, Eq)]
pub struct OperatorView {
    pub id: OperatorId,
    pub display_name: String,
    pub lane: String,
    pub status: String,
    pub fee_account: AccountId,
    pub pledged: u128,
    pub locked: u128,
    pub available: u128,
    pub external_commitment: u128,
    pub route_exposure: Vec<RouteExposureView>,
    pub fee_floor_bps: u32,
    pub reliability_bps: u32,
}

impl Clone for OperatorView {
    fn clone(&self) -> (r: Self)
        ensures
            r.copies(*self),
    {
        OperatorView {
            id: self.id.clone(),
            display_name: self.display_name.clone(),
            lane: self.lane.clone(),
            status: self.status.clone(),
            fee_account: self.fee_account.clone(),
            pledged: self.pledged,
            locked: self.locked,
            available: self.available,
            external_commitment: self.external_commitment,
            route_exposure: clone_exposure_views(&self.route_exposure),
            fee_floor_bps: self.fee_floor_bps,
            reliability_bps: self.reliability_bps,
        }
    }
}

impl OperatorView {
    /// The same fields, the route exposures as the same sequence.
    pub open spec fn copies(&self, other: OperatorView) -> bool {
        &&& self.id == other.id && self.display_name == other.display_name && self.lane == other.lane
        &&& self.status == other.status && self.fee_account == other.fee_account && self.pledged == other.pledged
        &&& self.locked == other.locked && self.available == other.available
        &&& self.external_commitment == other.external_commitment && self.route_exposure@ == other.route_exposure@
        &&& self.fee_floor_bps == other.fee_floor_bps && self.reliability_bps == other.reliability_bps
    }

    pub open spec fn describes(&self, op: OperatorProfile) -> bool {
        &&& self.id == op.id
        &&& self.display_name == op.display_name
        &&& self.lane == op.lane
        &&& self.status@ == status_name(op.status)
        &&& self.fee_account == op.fee_account
        &&& self.pledged == op.guarantee.pledged.0
        &&& self.locked == op.guarantee.locked.0
        &&& self.available == match guarantee_available(op.guarantee) { Ok(a) => a.0, Err(_) => 0 }
        &&& self.external_commitment == op.exposure.external_commitment.0
        &&& self.route_exposure@.len() == op.exposure.by_route@.len()
        &&& forall|i: int| 0 <= i < self.route_exposure@.len()
            ==> (#[trigger] self.route_exposure@[i]).describes(op.exposure.by_route@[i])
        &&& self.fee_floor_bps == op.fee_floor_bps.0
        &&& self.reliability_bps == op.reliability_bps.0
    }

    pub fn from_operator(value: &OperatorProfile) -> (r: OperatorView)
        ensures
            r.describes(*value),
    {
        let available = match value.available_guarantee() {
            Ok(a) => a.raw(),
            Err(_) => 0,
        };
        let mut status = String::new();
        push_str(&mut status, value.status.as_str());
        OperatorView {
            id: value.id.clone(),
            display_name: value.display_name.clone(),
            lane: value.lane.clone(),
            status,
            fee_account: value.fee_account.clone(),
            pledged: value.guarantee.pledged.raw(),
            locked: value.guarantee.locked.raw(),
            available,
            external_commitment: value.exposure.external_commitment.raw(),
            route_exposure: value.exposure.route_views(),
            fee_floor_bps: value.fee_floor_bps.raw(),
            reliability_bps: value.reliability_bps.raw(),
        }
    }
}

} // verus!
