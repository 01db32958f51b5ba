use crate::amount::{floor_muldiv, Amount, BasisPoints, U128_MAX};
use crate::error::{EclipseError, Result};
use crate::ids::AssetId;
use crate::store::{KeyedStore, Keyed, store_map};
use crate::text::push_str;
use vstd::prelude::*;

verus! {

#[derive(Debug, Clone, Copy, PartialEq, Eq, Structural)]
pub enum AssetClass {
    Stable,
    Native,
    LiquidStaking,
    Treasury,
    Synthetic,
    InternalCredit,
}

#[derive(Debug, PartialEq, Eq)]
pub struct AssetMetadata {
    pub issuer: String,
    pub settlement_domain: String,
    pub external_symbol: String,
    pub notes: String,
}

impl Clone for AssetMetadata {
    fn clone(&self) -> (r: Self)
        ensures
            r == *self,
    {
        AssetMetadata {
            issuer: self.issuer.clone(),
            settlement_domain: self.settlement_domain.clone(),
            external_symbol: self.external_symbol.clone(),
            notes: self.notes.clone(),
        }
    }
}

impl Default for AssetMetadata {
    fn default() -> (r: AssetMetadata)
        ensures
            r.issuer@ == "Eclipse Clearing"@,
            r.settlement_domain@ == "internal"@,
            r.external_symbol@ == Seq::<char>::empty(),
            r.notes@ == Seq::<char>::empty(),
    {
        let mut issuer = String::new();
        push_str(&mut issuer, "Eclipse Clearing");
        let mut settlement_domain = String::new();
        push_str(&mut settlement_domain, "internal");
        AssetMetadata { issuer, settlement_domain, external_symbol: String::new(), notes: String::new() }
    }
}

/// 10 to the power `e`.
pub open spec fn pow10(e: nat) -> int
    decreases e,
{
    if e == 0 { 1 } else { 10 * pow10((e - 1) as nat) }
}

pub proof fn lemma_pow10_monotone(a: nat, b: nat)
    requires
        a <= b,
    ensures
        1 <= pow10(a) <= pow10(b),
    decreases b,
{
    if b > a {
        lemma_pow10_monotone(a, (b - 1) as nat);
    } else {
        lemma_pow10_positive(a);
    }
}

pub proof fn lemma_pow10_positive(a: nat)
    ensures
        1 <= pow10(a),
    decreases a,
{
    if a > 0 {
        lemma_pow10_positive((a - 1) as nat);
    }
}

#[derive(Debug, PartialEq, Eq)]
pub struct Asset {
    pub id: AssetId,
    pub symbol: String,
    pub decimals: u8,
    pub class: AssetClass,
    pub enabled: bool,
    pub transfer_fee_bps: BasisPoints,
    pub risk_weight_bps: BasisPoints,
    pub min_settlement_unit: Amount,
    pub metadata: AssetMetadata,
}

impl Clone for Asset {
    fn clone(&self) -> (r: Self)
        ensures
            r == *self,
    {
        Asset {
            id: self.id.clone(),
            symbol: self.symbol.clone(),
            decimals: self.decimals,
            class: self.class,
            enabled: self.enabled,
            transfer_fee_bps: self.transfer_fee_bps,
            risk_weight_bps: self.risk_weight_bps,
            min_settlement_unit: self.min_settlement_unit,
            metadata: self.metadata.clone(),
        }
    }
}

impl Keyed for Asset {
    open spec fn key(&self) -> Seq<char> {
        self.id@
    }

    fn key_str(&self) -> (r: &str) {
        self.id.0.as_str()
    }
}

impl Asset {
    pub fn new(id: AssetId, symbol: &str, decimals: u8, class: AssetClass) -> (r: Asset)
        ensures
            r.id == id,
            r.symbol@ == symbol@,
            r.decimals == decimals,
            r.class == class,
            r.enabled,
            r.transfer_fee_bps.0 == 0,
            r.risk_weight_bps.0 == 10_000,
            r.min_settlement_unit.0 == 1,
            r.metadata.issuer@ == "Eclipse Clearing"@,
            r.metadata.settlement_domain@ == "internal"@,
            r.metadata.external_symbol@ == Seq::<char>::empty(),
            r.metadata.notes@ == Seq::<char>::empty(),
    {
        Asset {
            id,
            symbol: symbol.to_owned(),
            decimals,
            class,
            enabled: true,
            transfer_fee_bps: BasisPoints(0),
            risk_weight_bps: BasisPoints(10_000),
            min_settlement_unit: Amount(1),
            metadata: AssetMetadata::default(),
        }
    }

    pub fn with_transfer_fee(self, fee_bps: BasisPoints) -> (r: Asset)
        ensures
            r == (Asset { transfer_fee_bps: fee_bps, ..self }),
    {
        let mut a = self;
        a.transfer_fee_bps = fee_bps;
        a
    }

    pub fn with_risk_weight(self, risk_weight_bps: BasisPoints) -> (r: Asset)
        ensures
            r == (Asset { risk_weight_bps, ..self }),
    {
        let mut a = self;
        a.risk_weight_bps = risk_weight_bps;
        a
    }

    pub fn with_min_settlement_unit(self, unit: Amount) -> (r: Asset)
        ensures
            r == (Asset { min_settlement_unit: unit, ..self }),
    {
        let mut a = self;
        a.min_settlement_unit = unit;
        a
    }

    pub fn with_metadata(self, metadata: AssetMetadata) -> (r: Asset)
        ensures
            r == (Asset { metadata, ..self }),
    {
        let mut a = self;
        a.metadata = metadata;
        a
    }

    pub fn disabled(self) -> (r: Asset)
        ensures
            r == (Asset { enabled: false, ..self }),
    {
        let mut a = self;
        a.enabled = false;
        a
    }

    /// 10 to the power of the asset's decimals.
    pub fn scale(&self) -> (r: Result<u128>)
        ensures
            pow10(self.decimals as nat) <= U128_MAX ==> r == Ok::<u128, EclipseError>(pow10(self.decimals as nat) as u128),
            pow10(self.decimals as nat) > U128_MAX ==> r == Err::<u128, EclipseError>(EclipseError::AmountOverflow),
    {
        let mut acc: u128 = 1;
        let mut k: u8 = 0;
        while k < self.decimals
            invariant
                k <= self.decimals,
                acc == pow10(k as nat),
            decreases self.decimals - k,
        {
            if acc > U128_MAX / 10 {
                proof { lemma_pow10_monotone((k + 1) as nat, self.decimals as nat); }
                return Err(EclipseError::AmountOverflow);
            }
            acc = acc * 10;
            k = k + 1;
        }
        Ok(acc)
    }

    pub fn ensure_enabled(&self) -> (r: Result<()>)
        ensures
            self.enabled ==> r is Ok,
            !self.enabled ==> r == Err::<(), EclipseError>(EclipseError::AssetDisabled(self.id.0)),
    {
        if self.enabled {
            Ok(())
        } else {
            Err(EclipseError::AssetDisabled(self.id.0.clone()))
        }
    }

    pub fn transfer_fee(&self, amount: Amount) -> (r: Result<Amount>)
        ensures
            amount.0 * self.transfer_fee_bps.0 > U128_MAX ==> r == Err::<Amount, EclipseError>(EclipseError::AmountOverflow),
            amount.0 * self.transfer_fee_bps.0 <= U128_MAX ==> r == Ok::<Amount, EclipseError>(
                Amount(floor_muldiv(amount.0, self.transfer_fee_bps.0 as u128, 10_000) as u128)),
    {
        self.transfer_fee_bps.checked_amount_floor(amount)
    }

    pub fn risk_weighted(&self, amount: Amount) -> (r: Result<Amount>)
        ensures
            amount.0 * self.risk_weight_bps.0 > U128_MAX ==> r == Err::<Amount, EclipseError>(EclipseError::AmountOverflow),
            amount.0 * self.risk_weight_bps.0 <= U128_MAX ==> r == Ok::<Amount, EclipseError>(
                Amount(floor_muldiv(amount.0, self.risk_weight_bps.0 as u128, 10_000) as u128)),
    {
        self.risk_weight_bps.checked_amount_floor(amount)
    }
}

/// The registered assets, ordered by identifier.
#[derive(Clone, Debug)]
pub struct AssetBook {
    pub assets: KeyedStore<Asset>,
}

impl Default for AssetBook {
    fn default() -> (r: AssetBook)
        ensures
            r.wf(),
            r.map() == Map::<Seq<char>, Asset>::empty(),
    {
        AssetBook::new()
    }
}

impl AssetBook {
    pub open spec fn entries(&self) -> Seq<Asset> {
        self.assets@
    }

    /// The assets by identifier.
    pub open spec fn map(&self) -> Map<Seq<char>, Asset> {
        store_map(self.entries())
    }

    pub open spec fn wf(&self) -> bool {
        self.assets.wf()
    }

    pub fn new() -> (r: AssetBook)
        ensures
            r.wf(),
            r.map() == Map::<Seq<char>, Asset>::empty(),
    {
        let r = AssetBook { assets: KeyedStore::new() };
        proof { assert(r.map() =~= Map::<Seq<char>, Asset>::empty()); }
        r
    }

    pub fn insert(&mut self, asset: Asset) -> (r: Result<()>)
        requires
            old(self).wf(),
        ensures
            final(self).wf(),
            old(self).map().dom().contains(asset.id@) ==> r == Err::<(), EclipseError>(EclipseError::DuplicateId(asset.id.0))
                && final(self).map() == old(self).map(),
            !old(self).map().dom().contains(asset.id@) ==> r is Ok
                && final(self).map() == old(self).map().insert(asset.id@, asset),
    {
        let id = asset.id.0.clone();
        match self.assets.insert_new(asset) {
            Ok(()) => Ok(()),
            Err(_) => Err(EclipseError::DuplicateId(id)),
        }
    }

    pub fn upsert(&mut self, asset: Asset)
        requires
            old(self).wf(),
        ensures
            final(self).wf(),
            final(self).map() == old(self).map().insert(asset.id@, asset),
    {
        match self.assets.find(asset.id.as_str()) {
            Some(i) => {
                let ghost before = self.assets@;
                let _old = self.assets.take(i);
                self.assets.put_back(i, asset, Ghost(before));
            },
            None => {
                let _ = self.assets.insert_new(asset);
            },
        }
    }

    /// The asset with the given id, to be changed in place; the changed asset must keep its id for
    /// the book to stay ordered.
    /// The asset under `id`, to be changed in place. A change that keeps its identifier keeps the
    /// book well formed and replaces that asset in it.
    pub fn get_mut(&mut self, id: &AssetId) -> (r: Result<&mut Asset>)
        requires
            old(self).wf(),
        ensures
            !old(self).map().dom().contains(id@) ==> r == Err::<&mut Asset, EclipseError>(EclipseError::AssetNotFound(id.0))
                && *final(self) == *old(self),
            old(self).map().dom().contains(id@) ==> r is Ok && *r->Ok_0 == old(self).map()[id@],
            r is Ok && final(r->Ok_0).key() == id@ ==> final(self).wf()
                && final(self).map() == old(self).map().insert(id@, *final(r->Ok_0)),
    {
        match self.assets.get_mut(id.as_str()) {
            Some(a) => Ok(a),
            None => Err(EclipseError::AssetNotFound(id.0.clone())),
        }
    }

    pub fn get(&self, id: &AssetId) -> (r: Result<&Asset>)
        requires
            self.wf(),
        ensures
            self.map().dom().contains(id@) ==> r is Ok && *r->Ok_0 == self.map()[id@],
            !self.map().dom().contains(id@) ==> r == Err::<&Asset, EclipseError>(EclipseError::AssetNotFound(id.0)),
    {
        match self.assets.find(id.as_str()) {
            Some(i) => {
                proof { crate::store::lemma_store_map_index(self.assets@, i as int); }
                Ok(self.assets.at(i))
            },
            None => Err(EclipseError::AssetNotFound(id.0.clone())),
        }
    }

    pub fn ensure_enabled(&self, id: &AssetId) -> (r: Result<&Asset>)
        requires
            self.wf(),
        ensures
            !self.map().dom().contains(id@) ==> r == Err::<&Asset, EclipseError>(EclipseError::AssetNotFound(id.0)),
            self.map().dom().contains(id@) && !self.map()[id@].enabled
                ==> r == Err::<&Asset, EclipseError>(EclipseError::AssetDisabled(self.map()[id@].id.0)),
            self.map().dom().contains(id@) && self.map()[id@].enabled ==> r is Ok && *r->Ok_0 == self.map()[id@],
    {
        let asset = self.get(id)?;
        asset.ensure_enabled()?;
        Ok(asset)
    }

    fn set_enabled(&mut self, id: &AssetId, enabled: bool) -> (r: Result<()>)
        requires
            old(self).wf(),
        ensures
            final(self).wf(),
            !old(self).map().dom().contains(id@) ==> r == Err::<(), EclipseError>(EclipseError::AssetNotFound(id.0))
                && final(self).map() == old(self).map(),
            old(self).map().dom().contains(id@) ==> r is Ok && final(self).map()
                == old(self).map().insert(id@, Asset { enabled, ..old(self).map()[id@] }),
    {
        match self.assets.find(id.as_str()) {
            Some(i) => {
                let ghost before = self.assets@;
                proof { crate::store::lemma_store_map_index(before, i as int); }
                let mut asset = self.assets.take(i);
                asset.enabled = enabled;
                self.assets.put_back(i, asset, Ghost(before));
                Ok(())
            },
            None => Err(EclipseError::AssetNotFound(id.0.clone())),
        }
    }

    pub fn disable(&mut self, id: &AssetId) -> (r: Result<()>)
        requires
            old(self).wf(),
        ensures
            final(self).wf(),
            !old(self).map().dom().contains(id@) ==> r == Err::<(), EclipseError>(EclipseError::AssetNotFound(id.0))
                && final(self).map() == old(self).map(),
            old(self).map().dom().contains(id@) ==> r is Ok && final(self).map()
                == old(self).map().insert(id@, Asset { enabled: false, ..old(self).map()[id@] }),
    {
        self.set_enabled(id, false)
    }

    pub fn enable(&mut self, id: &AssetId) -> (r: Result<()>)
        requires
            old(self).wf(),
        ensures
            final(self).wf(),
            !old(self).map().dom().contains(id@) ==> r == Err::<(), EclipseError>(EclipseError::AssetNotFound(id.0))
                && final(self).map() == old(self).map(),
            old(self).map().dom().contains(id@) ==> r is Ok && final(self).map()
                == old(self).map().insert(id@, Asset { enabled: true, ..old(self).map()[id@] }),
    {
        self.set_enabled(id, true)
    }

    pub fn contains(&self, id: &AssetId) -> (r: bool)
        requires
            self.wf(),
        ensures
            r == self.map().dom().contains(id@),
    {
        self.assets.find(id.as_str()).is_some()
    }

    /// The assets in identifier order.
    pub fn list(&self) -> (r: Vec<&Asset>)
        ensures
            r@.len() == self.entries().len(),
            forall|i: int| 0 <= i < r@.len() ==> *#[trigger] r@[i] == self.entries()[i],
    {
        let mut out: Vec<&Asset> = Vec::new();
        let mut i: usize = 0;
        while i < self.assets.len()
            invariant
                i <= self.assets@.len(),
                out@.len() == i,
                forall|j: int| 0 <= j < i ==> *#[trigger] out@[j] == self.assets@[j],
            decreases self.assets@.len() - i,
        {
            out.push(self.assets.at(i));
            i = i + 1;
        }
        out
    }

    /// The identifiers in order.
    pub fn ids(&self) -> (r: Vec<AssetId>)
        ensures
            r@.len() == self.entries().len(),
            forall|i: int| 0 <= i < r@.len() ==> #[trigger] r@[i] == self.entries()[i].id,
    {
        let mut out: Vec<AssetId> = Vec::new();
        let mut i: usize = 0;
        while i < self.assets.len()
            invariant
                i <= self.assets@.len(),
                out@.len() == i,
                forall|j: int| 0 <= j < i ==> #[trigger] out@[j] == self.assets@[j].id,
            decreases self.assets@.len() - i,
        {
            out.push(self.assets.at(i).id.clone());
            i = i + 1;
        }
        out
    }

    pub fn len(&self) -> (r: usize)
        ensures
            r == self.entries().len(),
    {
        self.assets.len()
    }

    pub fn is_empty(&self) -> (r: bool)
        ensures
            r == (self.entries().len() == 0),
    {
        self.assets.len() == 0
    }
}

/// A flattened description of an asset.
#[derive(Debug, PartialEq, Eq)]
pub struct AssetView {
    pub id: AssetId,
    pub symbol: String,
    pub decimals: u8,
    pub class: AssetClass,
    pub enabled: bool,
    pub transfer_fee_bps: u32,
    pub risk_weight_bps: u32,
}

impl Clone for AssetView {
    fn clone(&self) -> (r: Self)
        ensures
            r == *self,
    {
        AssetView { id: self.id.clone(), symbol: self.symbol.clone(), ..*self }
    }
}

impl AssetView {
    pub fn from_asset(value: &Asset) -> (r: AssetView)
        ensures
            r.id == value.id,
            r.symbol == value.symbol,
            r.decimals == value.decimals,
            r.class == value.class,
            r.enabled == value.enabled,
            r.transfer_fee_bps == value.transfer_fee_bps.0,
            r.risk_weight_bps == value.risk_weight_bps.0,
    {
        AssetView {
            id: value.id.clone(),
            symbol: value.symbol.clone(),
            decimals: value.decimals,
            class: value.class,
            enabled: value.enabled,
            transfer_fee_bps: value.transfer_fee_bps.raw(),
            risk_weight_bps: value.risk_weight_bps.raw(),
        }
    }
}

} // verus!
