use crate::amount::{Amount, U128_MAX};
use crate::error::{EclipseError, Result};
use crate::ids::{AccountId, AssetId};
use crate::store::{KeyedStore, Keyed, store_map, index_of_key, sorted_by_key, lemma_store_map_index, lemma_store_map_injective, lemma_store_update};
use crate::text::{push_str, seq_lt};
use vstd::prelude::*;

verus! {

#[derive(Debug, Clone, Copy, PartialEq, Eq, Structural)]
pub enum AccountRole {
    User,
    Vault,
    OperatorFee,
    Treasury,
    Insurance,
}

pub open spec fn role_name(role: AccountRole) -> Seq<char> {
    match role {
        AccountRole::User => "user"@,
        AccountRole::Vault => "vault"@,
        AccountRole::OperatorFee => "operator_fee"@,
        AccountRole::Treasury => "treasury"@,
        AccountRole::Insurance => "insurance"@,
    }
}

impl AccountRole {
    pub fn as_str(&self) -> (r: &'static str)
        ensures
            r@ == role_name(*self),
    {
        match self {
            AccountRole::User => "user",
            AccountRole::Vault => "vault",
            AccountRole::OperatorFee => "operator_fee",
            AccountRole::Treasury => "treasury",
            AccountRole::Insurance => "insurance",
        }
    }
}

/// What one account holds of one asset.
#[derive(Debug, Clone, Copy, PartialEq, Eq, Structural)]
pub struct BalanceCell {
    pub available: Amount,
    pub reserved: Amount,
    pub pending_credit: Amount,
    pub cumulative_debit: Amount,
    pub cumulative_credit: Amount,
}

pub open spec fn fits(a: Amount, b: Amount) -> bool {
    a.0 + b.0 <= U128_MAX
}

pub open spec fn plus(a: Amount, b: Amount) -> Amount {
    Amount((a.0 + b.0) as u128)
}

pub open spec fn minus(a: Amount, b: Amount) -> Amount {
    Amount((a.0 - b.0) as u128)
}

/// The empty cell that a missing balance reads as.
pub open spec fn zero_cell() -> BalanceCell {
    BalanceCell {
        available: Amount(0),
        reserved: Amount(0),
        pending_credit: Amount(0),
        cumulative_debit: Amount(0),
        cumulative_credit: Amount(0),
    }
}

/// The cell after `credit` and its result; an overflow of the running credit total
/// leaves the already raised available balance in place.
pub open spec fn credit_post(c: BalanceCell, amount: Amount) -> (BalanceCell, Result<()>) {
    if !fits(c.available, amount) {
        (c, Err(EclipseError::AmountOverflow))
    } else if !fits(c.cumulative_credit, amount) {
        (BalanceCell { available: plus(c.available, amount), ..c }, Err(EclipseError::AmountOverflow))
    } else {
        (BalanceCell {
            available: plus(c.available, amount),
            cumulative_credit: plus(c.cumulative_credit, amount),
            ..c
        }, Ok(()))
    }
}

pub open spec fn debit_post(c: BalanceCell, amount: Amount) -> (BalanceCell, Result<()>) {
    if c.available.0 < amount.0 {
        (c, Err(EclipseError::AmountUnderflow))
    } else if !fits(c.cumulative_debit, amount) {
        (BalanceCell { available: minus(c.available, amount), ..c }, Err(EclipseError::AmountOverflow))
    } else {
        (BalanceCell {
            available: minus(c.available, amount),
            cumulative_debit: plus(c.cumulative_debit, amount),
            ..c
        }, Ok(()))
    }
}

pub open spec fn reserve_post(c: BalanceCell, amount: Amount) -> (BalanceCell, Result<()>) {
    if c.available.0 < amount.0 {
        (c, Err(EclipseError::AmountUnderflow))
    } else if !fits(c.reserved, amount) {
        (BalanceCell { available: minus(c.available, amount), ..c }, Err(EclipseError::AmountOverflow))
    } else {
        (BalanceCell { available: minus(c.available, amount), reserved: plus(c.reserved, amount), ..c }, Ok(()))
    }
}

pub open spec fn release_post(c: BalanceCell, amount: Amount) -> (BalanceCell, Result<()>) {
    if c.reserved.0 < amount.0 {
        (c, Err(EclipseError::AmountUnderflow))
    } else if !fits(c.available, amount) {
        (BalanceCell { reserved: minus(c.reserved, amount), ..c }, Err(EclipseError::AmountOverflow))
    } else {
        (BalanceCell { reserved: minus(c.reserved, amount), available: plus(c.available, amount), ..c }, Ok(()))
    }
}

pub open spec fn settle_reserved_post(c: BalanceCell, amount: Amount) -> (BalanceCell, Result<()>) {
    if c.reserved.0 < amount.0 {
        (c, Err(EclipseError::AmountUnderflow))
    } else if !fits(c.cumulative_debit, amount) {
        (BalanceCell { reserved: minus(c.reserved, amount), ..c }, Err(EclipseError::AmountOverflow))
    } else {
        (BalanceCell {
            reserved: minus(c.reserved, amount),
            cumulative_debit: plus(c.cumulative_debit, amount),
            ..c
        }, Ok(()))
    }
}

pub open spec fn queue_credit_post(c: BalanceCell, amount: Amount) -> (BalanceCell, Result<()>) {
    if !fits(c.pending_credit, amount) {
        (c, Err(EclipseError::AmountOverflow))
    } else {
        (BalanceCell { pending_credit: plus(c.pending_credit, amount), ..c }, Ok(()))
    }
}

pub open spec fn mature_credit_post(c: BalanceCell, amount: Amount) -> (BalanceCell, Result<()>) {
    if c.pending_credit.0 < amount.0 {
        (c, Err(EclipseError::AmountUnderflow))
    } else if !fits(c.available, amount) {
        (BalanceCell { pending_credit: minus(c.pending_credit, amount), ..c }, Err(EclipseError::AmountOverflow))
    } else if !fits(c.cumulative_credit, amount) {
        (BalanceCell {
            pending_credit: minus(c.pending_credit, amount),
            available: plus(c.available, amount),
            ..c
        }, Err(EclipseError::AmountOverflow))
    } else {
        (BalanceCell {
            pending_credit: minus(c.pending_credit, amount),
            available: plus(c.available, amount),
            cumulative_credit: plus(c.cumulative_credit, amount),
            ..c
        }, Ok(()))
    }
}

impl Default for BalanceCell {
    fn default() -> (r: BalanceCell)
        ensures
            r == zero_cell(),
    {
        BalanceCell {
            available: Amount(0),
            reserved: Amount(0),
            pending_credit: Amount(0),
            cumulative_debit: Amount(0),
            cumulative_credit: Amount(0),
        }
    }
}

impl BalanceCell {
    pub fn new(available: Amount) -> (r: BalanceCell)
        ensures
            r == (BalanceCell { available, cumulative_credit: available, ..zero_cell() }),
    {
        BalanceCell {
            available,
            reserved: Amount(0),
            pending_credit: Amount(0),
            cumulative_debit: Amount(0),
            cumulative_credit: available,
        }
    }

    pub fn available(&self) -> (r: Amount)
        ensures
            r == self.available,
    {
        self.available
    }

    pub fn total(&self) -> (r: Result<Amount>)
        ensures
            self.available.0 + self.reserved.0 + self.pending_credit.0 <= U128_MAX ==> r == Ok::<Amount, EclipseError>(
                Amount((self.available.0 + self.reserved.0 + self.pending_credit.0) as u128)),
            self.available.0 + self.reserved.0 + self.pending_credit.0 > U128_MAX
                ==> r == Err::<Amount, EclipseError>(EclipseError::AmountOverflow),
    {
        self.available.checked_add(self.reserved)?.checked_add(self.pending_credit)
    }

    pub fn credit(&mut self, amount: Amount) -> (r: Result<()>)
        ensures
            (*final(self), r) == credit_post(*old(self), amount),
    {
        self.available = self.available.checked_add(amount)?;
        self.cumulative_credit = self.cumulative_credit.checked_add(amount)?;
        Ok(())
    }

    pub fn debit(&mut self, amount: Amount) -> (r: Result<()>)
        ensures
            (*final(self), r) == debit_post(*old(self), amount),
    {
        if self.available.0 < amount.0 {
            return Err(EclipseError::AmountUnderflow);
        }
        self.available = self.available.checked_sub(amount)?;
        self.cumulative_debit = self.cumulative_debit.checked_add(amount)?;
        Ok(())
    }

    pub fn reserve(&mut self, amount: Amount) -> (r: Result<()>)
        ensures
            (*final(self), r) == reserve_post(*old(self), amount),
    {
        if self.available.0 < amount.0 {
            return Err(EclipseError::AmountUnderflow);
        }
        self.available = self.available.checked_sub(amount)?;
        self.reserved = self.reserved.checked_add(amount)?;
        Ok(())
    }

    pub fn release(&mut self, amount: Amount) -> (r: Result<()>)
        ensures
            (*final(self), r) == release_post(*old(self), amount),
    {
        if self.reserved.0 < amount.0 {
            return Err(EclipseError::AmountUnderflow);
        }
        self.reserved = self.reserved.checked_sub(amount)?;
        self.available = self.available.checked_add(amount)?;
        Ok(())
    }

    pub fn settle_reserved(&mut self, amount: Amount) -> (r: Result<()>)
        ensures
            (*final(self), r) == settle_reserved_post(*old(self), amount),
    {
        if self.reserved.0 < amount.0 {
            return Err(EclipseError::AmountUnderflow);
        }
        self.reserved = self.reserved.checked_sub(amount)?;
        self.cumulative_debit = self.cumulative_debit.checked_add(amount)?;
        Ok(())
    }

    pub fn queue_credit(&mut self, amount: Amount) -> (r: Result<()>)
        ensures
            (*final(self), r) == queue_credit_post(*old(self), amount),
    {
        self.pending_credit = self.pending_credit.checked_add(amount)?;
        Ok(())
    }

    pub fn mature_credit(&mut self, amount: Amount) -> (r: Result<()>)
        ensures
            (*final(self), r) == mature_credit_post(*old(self), amount),
    {
        if self.pending_credit.0 < amount.0 {
            return Err(EclipseError::AmountUnderflow);
        }
        self.pending_credit = self.pending_credit.checked_sub(amount)?;
        self.available = self.available.checked_add(amount)?;
        self.cumulative_credit = self.cumulative_credit.checked_add(amount)?;
        Ok(())
    }
}

/// Reserving and then releasing the same amount gives the cell back unchanged.
pub proof fn law_reserve_then_release(c: BalanceCell, amount: Amount)
    requires
        reserve_post(c, amount).1 is Ok,
    ensures
        release_post(reserve_post(c, amount).0, amount) == (c, Ok::<(), EclipseError>(())),
{
}

/// A successful reservation moves funds between available and reserved and keeps their sum.
pub proof fn law_reserve_keeps_holdings(c: BalanceCell, amount: Amount)
    requires
        reserve_post(c, amount).1 is Ok,
    ensures
        reserve_post(c, amount).0.available.0 + reserve_post(c, amount).0.reserved.0 == c.available.0 + c.reserved.0,
        reserve_post(c, amount).0.pending_credit == c.pending_credit,
{
}

/// Maturing a pending credit keeps the cell's total and moves the amount into available.
pub proof fn law_mature_keeps_total(c: BalanceCell, amount: Amount)
    requires
        mature_credit_post(c, amount).1 is Ok,
    ensures
        mature_credit_post(c, amount).0.available.0 + mature_credit_post(c, amount).0.reserved.0
            + mature_credit_post(c, amount).0.pending_credit.0
            == c.available.0 + c.reserved.0 + c.pending_credit.0,
        mature_credit_post(c, amount).0.available.0 == c.available.0 + amount.0,
{
}

/// Crediting and then debiting the same amount restores the available balance,
/// and both running totals grow by the amount.
pub proof fn law_credit_then_debit(c: BalanceCell, amount: Amount)
    requires
        credit_post(c, amount).1 is Ok,
        fits(c.cumulative_debit, amount),
    ensures
        debit_post(credit_post(c, amount).0, amount).1 is Ok,
        debit_post(credit_post(c, amount).0, amount).0.available == c.available,
        debit_post(credit_post(c, amount).0, amount).0.cumulative_credit.0 == c.cumulative_credit.0 + amount.0,
        debit_post(credit_post(c, amount).0, amount).0.cumulative_debit.0 == c.cumulative_debit.0 + amount.0,
{
}

/// The balance of one asset within an account.
#[derive(Debug, PartialEq, Eq)]
pub struct BalanceEntry {
    pub asset: AssetId,
    pub cell: BalanceCell,
}

impl Keyed for BalanceEntry {
    open spec fn key(&self) -> Seq<char> {
        self.asset@
    }

    fn key_str(&self) -> (r: &str) {
        self.asset.0.as_str()
    }
}

pub open spec fn frozen_message(id: Seq<char>) -> Seq<char> {
    "account "@ + id + " is frozen"@
}

/// `r` is the error that a frozen account `id` reports.
pub open spec fn is_frozen_error(r: Result<()>, id: Seq<char>) -> bool {
    match r {
        Err(EclipseError::InvalidScenario(m)) => m@ == frozen_message(id),
        _ => false,
    }
}

#[derive(Debug, PartialEq, Eq)]
pub struct AccountState {
    pub id: AccountId,
    pub role: AccountRole,
    pub label: String,
    pub balances: KeyedStore<BalanceEntry>,
    pub frozen: bool,
}

impl Keyed for AccountState {
    open spec fn key(&self) -> Seq<char> {
        self.id@
    }

    fn key_str(&self) -> (r: &str) {
        self.id.0.as_str()
    }
}

impl AccountState {
    pub open spec fn entries(&self) -> Seq<BalanceEntry> {
        self.balances@
    }

    pub open spec fn wf(&self) -> bool {
        self.balances.wf()
    }

    /// The cells by asset identifier.
    pub open spec fn cells(&self) -> Map<Seq<char>, BalanceCell> {
        store_map(self.entries()).map_values(|e: BalanceEntry| e.cell)
    }

    /// The cell of `asset`, empty when the account never held it.
    pub open spec fn cell_of(&self, asset: Seq<char>) -> BalanceCell {
        if self.cells().dom().contains(asset) { self.cells()[asset] } else { zero_cell() }
    }

    /// Identity, role, label and frozen flag agree.
    pub open spec fn same_header(&self, other: AccountState) -> bool {
        &&& self.id == other.id
        &&& self.role == other.role
        &&& self.label == other.label
        &&& self.frozen == other.frozen
    }

    /// The account after a cell operation whose effect on the cell is `post`.
    pub open spec fn cell_effect(&self, after: AccountState, asset: Seq<char>, post: (BalanceCell, Result<()>), r: Result<()>) -> bool {
        &&& after.same_header(*self)
        &&& after.wf()
        &&& self.frozen ==> is_frozen_error(r, self.id@) && after.cells() == self.cells()
        &&& !self.frozen ==> after.cells() == self.cells().insert(asset, post.0) && r == post.1
    }

    /// The error of a debit or reservation that the available balance cannot cover.
    pub open spec fn shortfall_error(&self, asset: AssetId, amount: Amount) -> EclipseError {
        EclipseError::InsufficientBalance {
            account: self.id.0,
            asset: asset.0,
            available: self.cell_of(asset@).available.0,
            needed: amount.0,
        }
    }

    /// The account after a checked debit or reservation; `post` is the cell operation.
    pub open spec fn checked_effect(&self, after: AccountState, asset: AssetId, amount: Amount, post: (BalanceCell, Result<()>), r: Result<()>) -> bool {
        &&& after.same_header(*self)
        &&& after.wf()
        &&& self.frozen ==> is_frozen_error(r, self.id@) && after.cells() == self.cells()
        &&& !self.frozen ==> after.cells() == self.cells().insert(asset@, post.0)
        &&& !self.frozen && self.cell_of(asset@).available.0 < amount.0 ==> r == Err::<(), EclipseError>(self.shortfall_error(asset, amount))
        &&& !self.frozen && self.cell_of(asset@).available.0 >= amount.0 ==> r == post.1
    }

    /// A debit of `amount` of `asset` succeeds.
    pub open spec fn debit_succeeds(&self, asset: Seq<char>, amount: Amount) -> bool {
        !self.frozen && debit_post(self.cell_of(asset), amount).1 is Ok
    }

    pub fn new(id: AccountId, role: AccountRole, label: &str) -> (r: AccountState)
        ensures
            r.id == id,
            r.role == role,
            r.label@ == label@,
            !r.frozen,
            r.wf(),
            r.cells() == Map::<Seq<char>, BalanceCell>::empty(),
    {
        let r = AccountState { id, role, label: label.to_owned(), balances: KeyedStore::new(), frozen: false };
        proof { assert(r.cells() =~= Map::<Seq<char>, BalanceCell>::empty()); }
        r
    }

    pub fn balance_cell(&self, asset: &AssetId) -> (r: BalanceCell)
        requires
            self.wf(),
        ensures
            r == self.cell_of(asset@),
    {
        match self.balances.find(asset.as_str()) {
            Some(i) => {
                proof { lemma_store_map_index(self.balances@, i as int); }
                self.balances.at(i).cell
            },
            None => BalanceCell::default(),
        }
    }

    pub fn balance(&self, asset: &AssetId) -> (r: Amount)
        requires
            self.wf(),
        ensures
            r == self.cell_of(asset@).available,
    {
        self.balance_cell(asset).available()
    }

    /// The balances in asset order.
    pub fn balances(&self) -> (r: &[BalanceEntry])
        ensures
            r@ == self.entries(),
    {
        self.balances.as_slice()
    }

    pub fn ensure_active(&self) -> (r: Result<()>)
        ensures
            !self.frozen ==> r is Ok,
            self.frozen ==> is_frozen_error(r, self.id@),
    {
        if self.frozen {
            let mut m = String::new();
            push_str(&mut m, "account ");
            push_str(&mut m, self.id.as_str());
            push_str(&mut m, " is frozen");
            Err(EclipseError::InvalidScenario(m))
        } else {
            Ok(())
        }
    }

    proof fn lemma_cells_after_update(s: Seq<BalanceEntry>, i: int, e: BalanceEntry)
        requires
            crate::store::sorted_by_key(s),
            0 <= i < s.len(),
            e.key() == s[i].key(),
        ensures
            store_map(s.update(i, e)).map_values(|x: BalanceEntry| x.cell)
                == store_map(s).map_values(|x: BalanceEntry| x.cell).insert(e.key(), e.cell),
    {
        crate::store::lemma_store_update(s, i, e);
        assert(store_map(s.update(i, e)).map_values(|x: BalanceEntry| x.cell)
            =~= store_map(s).map_values(|x: BalanceEntry| x.cell).insert(e.key(), e.cell));
    }

    /// The index of the cell of `asset`, adding an empty one when it is missing.
    fn slot(&mut self, asset: &AssetId) -> (i: usize)
        requires
            old(self).wf(),
        ensures
            final(self).wf(),
            final(self).same_header(*old(self)),
            i < final(self).entries().len(),
            final(self).entries()[i as int].key() == asset@,
            final(self).entries()[i as int].cell == old(self).cell_of(asset@),
            final(self).cells() == old(self).cells().insert(asset@, old(self).cell_of(asset@)),
    {
        match self.balances.find(asset.as_str()) {
            Some(i) => {
                proof {
                    lemma_store_map_index(self.balances@, i as int);
                    assert(self.cells() =~= self.cells().insert(asset@, self.cell_of(asset@)));
                }
                i
            },
            None => {
                let ghost before = self.balances.map();
                let _ = self.balances.insert_new(BalanceEntry { asset: asset.clone(), cell: BalanceCell::default() });
                proof {
                    assert(self.cells() =~= old(self).cells().insert(asset@, zero_cell()));
                }
                match self.balances.find(asset.as_str()) {
                    Some(i) => {
                        proof { lemma_store_map_index(self.balances@, i as int); }
                        i
                    },
                    None => {
                        proof { assert(self.balances.map().dom().contains(asset@)); }
                        0
                    },
                }
            },
        }
    }

    pub fn credit(&mut self, asset: AssetId, amount: Amount) -> (r: Result<()>)
        requires
            old(self).wf(),
        ensures
            old(self).cell_effect(*final(self), asset@, credit_post(old(self).cell_of(asset@), amount), r),
    {
        self.ensure_active()?;
        let i = self.slot(&asset);
        let ghost before = self.balances@;
        let mut e = self.balances.take(i);
        let r = e.cell.credit(amount);
        proof { Self::lemma_cells_after_update(before, i as int, e); }
        self.balances.put_back(i, e, Ghost(before));
        proof { assert(self.cells() =~= old(self).cells().insert(asset@, e.cell)); }
        r
    }

    pub fn debit(&mut self, asset: &AssetId, amount: Amount) -> (r: Result<()>)
        requires
            old(self).wf(),
        ensures
            old(self).checked_effect(*final(self), *asset, amount, debit_post(old(self).cell_of(asset@), amount), r),
    {
        self.ensure_active()?;
        let i = self.slot(asset);
        let ghost before = self.balances@;
        let mut e = self.balances.take(i);
        if e.cell.available.0 < amount.0 {
            let available = e.cell.available.raw();
            proof { Self::lemma_cells_after_update(before, i as int, e); }
            self.balances.put_back(i, e, Ghost(before));
            proof { assert(self.cells() =~= old(self).cells().insert(asset@, e.cell)); }
            return Err(EclipseError::InsufficientBalance {
                account: self.id.0.clone(),
                asset: asset.0.clone(),
                available,
                needed: amount.raw(),
            });
        }
        let r = e.cell.debit(amount);
        proof { Self::lemma_cells_after_update(before, i as int, e); }
        self.balances.put_back(i, e, Ghost(before));
        proof { assert(self.cells() =~= old(self).cells().insert(asset@, e.cell)); }
        r
    }

    pub fn reserve(&mut self, asset: &AssetId, amount: Amount) -> (r: Result<()>)
        requires
            old(self).wf(),
        ensures
            old(self).checked_effect(*final(self), *asset, amount, reserve_post(old(self).cell_of(asset@), amount), r),
    {
        self.ensure_active()?;
        let i = self.slot(asset);
        let ghost before = self.balances@;
        let mut e = self.balances.take(i);
        if e.cell.available.0 < amount.0 {
            let available = e.cell.available.raw();
            proof { Self::lemma_cells_after_update(before, i as int, e); }
            self.balances.put_back(i, e, Ghost(before));
            proof { assert(self.cells() =~= old(self).cells().insert(asset@, e.cell)); }
            return Err(EclipseError::InsufficientBalance {
                account: self.id.0.clone(),
                asset: asset.0.clone(),
                available,
                needed: amount.raw(),
            });
        }
        let r = e.cell.reserve(amount);
        proof { Self::lemma_cells_after_update(before, i as int, e); }
        self.balances.put_back(i, e, Ghost(before));
        proof { assert(self.cells() =~= old(self).cells().insert(asset@, e.cell)); }
        r
    }

    pub fn release(&mut self, asset: &AssetId, amount: Amount) -> (r: Result<()>)
        requires
            old(self).wf(),
        ensures
            old(self).cell_effect(*final(self), asset@, release_post(old(self).cell_of(asset@), amount), r),
    {
        self.ensure_active()?;
        let i = self.slot(asset);
        let ghost before = self.balances@;
        let mut e = self.balances.take(i);
        let r = e.cell.release(amount);
        proof { Self::lemma_cells_after_update(before, i as int, e); }
        self.balances.put_back(i, e, Ghost(before));
        proof { assert(self.cells() =~= old(self).cells().insert(asset@, e.cell)); }
        r
    }

    pub fn queue_credit(&mut self, asset: AssetId, amount: Amount) -> (r: Result<()>)
        requires
            old(self).wf(),
        ensures
            old(self).cell_effect(*final(self), asset@, queue_credit_post(old(self).cell_of(asset@), amount), r),
    {
        self.ensure_active()?;
        let i = self.slot(&asset);
        let ghost before = self.balances@;
        let mut e = self.balances.take(i);
        let r = e.cell.queue_credit(amount);
        proof { Self::lemma_cells_after_update(before, i as int, e); }
        self.balances.put_back(i, e, Ghost(before));
        proof { assert(self.cells() =~= old(self).cells().insert(asset@, e.cell)); }
        r
    }

    pub fn mature_credit(&mut self, asset: &AssetId, amount: Amount) -> (r: Result<()>)
        requires
            old(self).wf(),
        ensures
            old(self).cell_effect(*final(self), asset@, mature_credit_post(old(self).cell_of(asset@), amount), r),
    {
        self.ensure_active()?;
        let i = self.slot(asset);
        let ghost before = self.balances@;
        let mut e = self.balances.take(i);
        let r = e.cell.mature_credit(amount);
        proof { Self::lemma_cells_after_update(before, i as int, e); }
        self.balances.put_back(i, e, Ghost(before));
        proof { assert(self.cells() =~= old(self).cells().insert(asset@, e.cell)); }
        r
    }
}


/// The accounts, ordered by identifier.
#[derive(Debug)]
pub struct AccountBook {
    pub accounts: KeyedStore<AccountState>,
}

/// The total available balance of `asset` over a sequence of accounts.
pub open spec fn sum_available(s: Seq<AccountState>, asset: Seq<char>) -> int
    decreases s.len(),
{
    if s.len() == 0 {
        0
    } else {
        sum_available(s.drop_last(), asset) + s.last().cell_of(asset).available.0
    }
}

pub proof fn lemma_sum_available_prefix(s: Seq<AccountState>, asset: Seq<char>, i: int)
    requires
        0 <= i <= s.len(),
    ensures
        0 <= sum_available(s.take(i), asset) <= sum_available(s, asset),
    decreases s.len() - i,
{
    if i < s.len() {
        lemma_sum_available_prefix(s, asset, i + 1);
        assert(s.take(i + 1).drop_last() == s.take(i));
        lemma_sum_available_nonneg(s.take(i), asset);
    } else {
        assert(s.take(i) == s);
        lemma_sum_available_nonneg(s, asset);
    }
}

pub proof fn lemma_sum_available_nonneg(s: Seq<AccountState>, asset: Seq<char>)
    ensures
        sum_available(s, asset) >= 0,
    decreases s.len(),
{
    if s.len() > 0 {
        lemma_sum_available_nonneg(s.drop_last(), asset);
    }
}

/// Replacing one account changes the total by the difference of its available amounts.
pub proof fn lemma_sum_available_update(s: Seq<AccountState>, i: int, v: AccountState, asset: Seq<char>)
    requires
        0 <= i < s.len(),
    ensures
        sum_available(s.update(i, v), asset)
            == sum_available(s, asset) - s[i].cell_of(asset).available.0 + v.cell_of(asset).available.0,
    decreases s.len(),
{
    let t = s.update(i, v);
    if i == s.len() - 1 {
        assert(t.drop_last() =~= s.drop_last());
    } else {
        lemma_sum_available_update(s.drop_last(), i, v, asset);
        assert(t.drop_last() =~= s.drop_last().update(i, v));
    }
}

/// A transfer that moves nothing: same account on both sides, or a zero amount.
pub open spec fn transfer_is_noop(from: Seq<char>, to: Seq<char>, amount: Amount) -> bool {
    from == to || amount.0 == 0
}

/// A credit of `amount` of `asset` to `acc` succeeds.
pub open spec fn credit_succeeds(acc: AccountState, asset: Seq<char>, amount: Amount) -> bool {
    !acc.frozen && credit_post(acc.cell_of(asset), amount).1 is Ok
}

/// What `AccountBook::transfer` makes of the accounts `before`: the accounts `after` and the result.
/// A transfer is a withdrawal from `from` followed by a deposit to `to`. A withdrawal that fails
/// leaves whatever it did to `from` and stops; a deposit that fails leaves `from` debited and
/// whatever it did to `to`.
pub open spec fn transfer_outcome(before: Map<Seq<char>, AccountState>, after: Map<Seq<char>, AccountState>, from: AccountId,
    to: AccountId, asset: AssetId, amount: Amount, r: Result<()>) -> bool {
    if transfer_is_noop(from@, to@, amount) {
        r is Ok && after == before
    } else if !before.dom().contains(from@) {
        r == Err::<(), EclipseError>(EclipseError::AccountNotFound(from.0)) && after == before
    } else if !before.dom().contains(to@) {
        r == Err::<(), EclipseError>(EclipseError::AccountNotFound(to.0)) && after == before
    } else if !before[from@].debit_succeeds(asset@, amount) {
        &&& after == before.insert(from@, after[from@])
        &&& before[from@].checked_effect(after[from@], asset, amount, debit_post(before[from@].cell_of(asset@), amount), r)
    } else {
        &&& after == before.insert(from@, after[from@]).insert(to@, after[to@])
        &&& before[from@].checked_effect(after[from@], asset, amount, debit_post(before[from@].cell_of(asset@), amount), Ok(()))
        &&& before[to@].cell_effect(after[to@], asset@, credit_post(before[to@].cell_of(asset@), amount), r)
    }
}

/// The available amount of `asset` held by `account`, zero for an account that is not there.
pub open spec fn available_in(m: Map<Seq<char>, AccountState>, account: Seq<char>, asset: Seq<char>) -> int {
    if m.dom().contains(account) { m[account].cell_of(asset).available.0 as int } else { 0 }
}

/// What a transfer of `amount` of `asset` from `from` to `to` adds to `account`'s available
/// amount of `x`.
pub open spec fn transfer_delta(from: Seq<char>, to: Seq<char>, asset: Seq<char>, amount: int, account: Seq<char>,
    x: Seq<char>) -> int {
    (if account == to && x == asset { amount } else { 0 }) - (if account == from && x == asset { amount } else { 0 })
}

/// A transfer that succeeds moves its amount out of the sender's available balance and into the
/// receiver's, and leaves every other balance as it was.
pub proof fn lemma_transfer_available(before: Map<Seq<char>, AccountState>, after: Map<Seq<char>, AccountState>,
    from: AccountId, to: AccountId, asset: AssetId, amount: Amount, r: Result<()>, account: Seq<char>, x: Seq<char>)
    requires
        transfer_outcome(before, after, from, to, asset, amount, r),
        r is Ok,
    ensures
        after.dom() == before.dom(),
        available_in(after, account, x)
            == available_in(before, account, x) + transfer_delta(from@, to@, asset@, amount.0 as int, account, x),
{
    if !transfer_is_noop(from@, to@, amount) {
        let a = before[from@];
        let b = before[to@];
        let na = after[from@];
        let nb = after[to@];
        assert(before.dom().contains(from@) && before.dom().contains(to@));
        assert(a.debit_succeeds(asset@, amount) && credit_succeeds(b, asset@, amount));
        assert(after.dom() =~= before.dom());
        assert(!a.frozen && !b.frozen);
        assert(na.cells() == a.cells().insert(asset@, debit_post(a.cell_of(asset@), amount).0));
        assert(nb.cells() == b.cells().insert(asset@, credit_post(b.cell_of(asset@), amount).0));
        if account == from@ {
            assert(after[account] == na);
            if x == asset@ {
                assert(na.cell_of(x) == debit_post(a.cell_of(asset@), amount).0);
            } else {
                assert(na.cell_of(x) == a.cell_of(x));
            }
        } else if account == to@ {
            assert(after[account] == nb);
            if x == asset@ {
                assert(nb.cell_of(x) == credit_post(b.cell_of(asset@), amount).0);
            } else {
                assert(nb.cell_of(x) == b.cell_of(x));
            }
        } else if before.dom().contains(account) {
            assert(after[account] == before[account]);
        }
    }
}

/// The sorted accounts after a transfer that succeeds, with the same total of every asset.
pub proof fn lemma_transfer_totals(s: Seq<AccountState>, after: Map<Seq<char>, AccountState>, from: AccountId,
    to: AccountId, asset: AssetId, amount: Amount) -> (t: Seq<AccountState>)
    requires
        crate::store::sorted_by_key(s),
        transfer_outcome(store_map(s), after, from, to, asset, amount, Ok::<(), EclipseError>(())),
    ensures
        crate::store::sorted_by_key(t),
        store_map(t) == after,
        forall|held: Seq<char>| #[trigger] sum_available(t, held) == sum_available(s, held),
{
    if transfer_is_noop(from@, to@, amount) {
        s
    } else {
        let i = index_of_key(s, from@);
        let j = index_of_key(s, to@);
        lemma_store_map_index(s, i);
        lemma_store_map_index(s, j);
        let a = after[from@];
        let b = after[to@];
        let s1 = s.update(i, a);
        lemma_store_update(s, i, a);
        assert(s1[j] == s[j]);
        lemma_store_update(s1, j, b);
        let s2 = s1.update(j, b);
        assert forall|held: Seq<char>| #[trigger] sum_available(s2, held) == sum_available(s, held) by {
            lemma_sum_available_update(s, i, a, held);
            lemma_sum_available_update(s1, j, b, held);
            if held == asset@ {
                assert(a.cell_of(held).available.0 == s[i].cell_of(held).available.0 - amount.0);
                assert(b.cell_of(held).available.0 == s[j].cell_of(held).available.0 + amount.0);
            } else {
                assert(a.cell_of(held) == s[i].cell_of(held));
                assert(b.cell_of(held) == s[j].cell_of(held));
            }
        }
        s2
    }
}

/// A transfer that succeeds moves value between two accounts without creating or destroying any:
/// over all accounts, the total available amount of every asset is what it was before.
pub proof fn law_transfer_conserves_totals(before: AccountBook, after: AccountBook, from: AccountId, to: AccountId,
    asset: AssetId, amount: Amount, held: Seq<char>)
    requires
        before.wf(),
        after.wf(),
        transfer_outcome(before.map(), after.map(), from, to, asset, amount, Ok::<(), EclipseError>(())),
    ensures
        sum_available(after.entries(), held) == sum_available(before.entries(), held),
{
    let t = lemma_transfer_totals(before.entries(), after.map(), from, to, asset, amount);
    lemma_store_map_injective(t, after.entries());
    assert(sum_available(t, held) == sum_available(before.entries(), held));
}

impl Clone for AccountState {
    /// A copy with the same identity, flags and balances.
    fn clone(&self) -> (r: Self)
        ensures
            r.id == self.id,
            r.role == self.role,
            r.label == self.label,
            r.frozen == self.frozen,
            r.balances@ == self.balances@,
    {
        let mut items: Vec<BalanceEntry> = Vec::new();
        let n = self.balances.len();
        let mut i: usize = 0;
        while i < n
            invariant
                n == self.balances@.len(),
                i <= n,
                items@ == self.balances@.take(i as int),
            decreases n - i,
        {
            let e = self.balances.at(i);
            items.push(BalanceEntry { asset: e.asset.clone(), cell: e.cell });
            proof { assert(self.balances@.take(i + 1) == self.balances@.take(i as int).push(self.balances@[i as int])); }
            i = i + 1;
        }
        proof { assert(self.balances@.take(n as int) == self.balances@); }
        AccountState {
            id: self.id.clone(),
            role: self.role,
            label: self.label.clone(),
            balances: KeyedStore::from_vec(items),
            frozen: self.frozen,
        }
    }
}

/// `a` and `b` hold the same account: identity, frozen flag and balances agree.
pub open spec fn same_account(a: AccountState, b: AccountState) -> bool {
    a.id == b.id && a.frozen == b.frozen && a.cells() == b.cells()
}

/// Two account maps hold the same accounts with the same balances.
pub open spec fn same_balances(m1: Map<Seq<char>, AccountState>, m2: Map<Seq<char>, AccountState>) -> bool {
    &&& m1.dom() == m2.dom()
    &&& forall|k: Seq<char>| #[trigger] m1.dom().contains(k) ==> same_account(m1[k], m2[k])
}

/// A transfer gives the same success on two maps with the same accounts and balances, and leaves
/// them with the same accounts and balances.
pub proof fn lemma_transfer_agrees(m1: Map<Seq<char>, AccountState>, a1: Map<Seq<char>, AccountState>, r1: Result<()>,
    m2: Map<Seq<char>, AccountState>, a2: Map<Seq<char>, AccountState>, r2: Result<()>, from: AccountId, to: AccountId,
    to2: AccountId, asset: AssetId, amount: Amount)
    requires
        same_balances(m1, m2),
        to2@ == to@,
        transfer_outcome(m1, a1, from, to, asset, amount, r1),
        transfer_outcome(m2, a2, from, to2, asset, amount, r2),
    ensures
        r1 is Ok <==> r2 is Ok,
        same_balances(a1, a2),
{
    if !transfer_is_noop(from@, to@, amount) && m1.dom().contains(from@) && m1.dom().contains(to@)
        && m1[from@].debit_succeeds(asset@, amount) && credit_succeeds(m1[to@], asset@, amount) {
        assert(same_account(m1[from@], m2[from@]));
        assert(same_account(m1[to@], m2[to@]));
        assert(a1.dom() =~= a2.dom());
        assert forall|k: Seq<char>| #[trigger] a1.dom().contains(k) implies same_account(a1[k], a2[k]) by {
            if k != from@ && k != to@ {
                assert(same_account(m1[k], m2[k]));
            }
        }
    } else if !transfer_is_noop(from@, to@, amount) && m1.dom().contains(from@) && m1.dom().contains(to@) {
        assert(same_account(m1[from@], m2[from@]));
        assert(same_account(m1[to@], m2[to@]));
    }
}

/// `a` is a copy of `b`: same identity, flags and balance entries.
pub open spec fn copy_of(a: AccountState, b: AccountState) -> bool {
    &&& a.id == b.id && a.role == b.role && a.label == b.label && a.frozen == b.frozen
    &&& a.balances@ == b.balances@
}

impl Clone for AccountBook {
    /// A copy holding the same accounts with the same balances.
    fn clone(&self) -> (r: Self)
        ensures
            r.entries().len() == self.entries().len(),
            forall|i: int| 0 <= i < self.entries().len() ==> copy_of(#[trigger] r.entries()[i], self.entries()[i]),
            self.wf() ==> r.wf() && same_balances(r.map(), self.map()),
    {
        let mut items: Vec<AccountState> = Vec::new();
        let n = self.accounts.len();
        let mut i: usize = 0;
        while i < n
            invariant
                n == self.accounts@.len(),
                i <= n,
                items@.len() == i,
                forall|j: int| 0 <= j < i ==> copy_of(#[trigger] items@[j], self.accounts@[j]),
            decreases n - i,
        {
            items.push(self.accounts.at(i).clone());
            i = i + 1;
        }
        let r = AccountBook { accounts: KeyedStore::from_vec(items) };
        proof {
            if self.wf() {
                let s = self.entries();
                let t = r.entries();
                assert forall|a: int, b: int| 0 <= a < b < t.len() implies seq_lt(#[trigger] t[a].key(), #[trigger] t[b].key()) by {
                    assert(copy_of(t[a], s[a]) && copy_of(t[b], s[b]));
                    assert(seq_lt(s[a].key(), s[b].key()));
                }
                assert forall|j: int| 0 <= j < t.len() implies (#[trigger] t[j]).wf() by {
                    assert(copy_of(t[j], s[j]));
                    assert(s[j].wf());
                }
                lemma_copies_same_balances(t, s);
            }
        }
        r
    }
}

/// Sorted sequences of copies, position by position, hold the same accounts and balances.
proof fn lemma_copies_same_balances(t: Seq<AccountState>, s: Seq<AccountState>)
    requires
        sorted_by_key(s),
        sorted_by_key(t),
        t.len() == s.len(),
        forall|i: int| 0 <= i < s.len() ==> copy_of(#[trigger] t[i], s[i]),
    ensures
        same_balances(store_map(t), store_map(s)),
{
    assert forall|k: Seq<char>| #[trigger] crate::store::has_key(t, k) <==> crate::store::has_key(s, k) by {
        if crate::store::has_key(t, k) {
            let j = choose|j: int| 0 <= j < t.len() && #[trigger] t[j].key() == k;
            assert(copy_of(t[j], s[j]));
            assert(s[j].key() == k);
        }
        if crate::store::has_key(s, k) {
            let j = choose|j: int| 0 <= j < s.len() && #[trigger] s[j].key() == k;
            assert(copy_of(t[j], s[j]));
            assert(t[j].key() == k);
        }
    }
    assert(store_map(t).dom() =~= store_map(s).dom());
    assert forall|k: Seq<char>| #[trigger] store_map(t).dom().contains(k) implies same_account(store_map(t)[k], store_map(s)[k]) by {
        let j = index_of_key(t, k);
        lemma_store_map_index(t, j);
        assert(copy_of(t[j], s[j]));
        lemma_store_map_index(s, j);
    }
}

impl Default for AccountBook {
    fn default() -> (r: AccountBook)
        ensures
            r.wf(),
            r.map() == Map::<Seq<char>, AccountState>::empty(),
            r.entries() == Seq::<AccountState>::empty(),
    {
        AccountBook::new()
    }
}

impl AccountBook {
    pub open spec fn entries(&self) -> Seq<AccountState> {
        self.accounts@
    }

    pub open spec fn wf(&self) -> bool {
        &&& self.accounts.wf()
        &&& forall|i: int| 0 <= i < self.accounts@.len() ==> (#[trigger] self.accounts@[i]).wf()
    }

    /// The accounts by identifier.
    pub open spec fn map(&self) -> Map<Seq<char>, AccountState> {
        store_map(self.entries())
    }

    /// Only the account under `id` changed, to the value it now has.
    pub open spec fn changed_only(&self, before: AccountBook, id: Seq<char>) -> bool {
        &&& before.map().dom().contains(id)
        &&& self.map() == before.map().insert(id, self.map()[id])
    }

    proof fn lemma_wf_map(&self, id: Seq<char>)
        requires
            self.wf(),
            self.map().dom().contains(id),
        ensures
            self.map()[id].wf(),
            self.map()[id].id@ == id,
    {
        let i = crate::store::index_of_key(self.entries(), id);
        lemma_store_map_index(self.entries(), i);
    }

    pub fn new() -> (r: AccountBook)
        ensures
            r.wf(),
            r.map() == Map::<Seq<char>, AccountState>::empty(),
            r.entries() == Seq::<AccountState>::empty(),
    {
        let r = AccountBook { accounts: KeyedStore::new() };
        proof { assert(r.map() =~= Map::<Seq<char>, AccountState>::empty()); }
        r
    }

    pub fn insert(&mut self, account: AccountState) -> (r: Result<()>)
        requires
            old(self).wf(),
            account.wf(),
        ensures
            final(self).wf(),
            old(self).map().dom().contains(account.id@) ==> r == Err::<(), EclipseError>(EclipseError::DuplicateId(account.id.0))
                && final(self).map() == old(self).map(),
            !old(self).map().dom().contains(account.id@) ==> r is Ok
                && final(self).map() == old(self).map().insert(account.id@, account),
    {
        let id = account.id.0.clone();
        let ghost before = self.accounts@;
        let ghost acct = account;
        match self.accounts.insert_new(account) {
            Ok(()) => {
                proof {
                    assert forall|i: int| 0 <= i < self.accounts@.len() implies (#[trigger] self.accounts@[i]).wf() by {
                        let k = self.accounts@[i].key();
                        lemma_store_map_index(self.accounts@, i);
                        assert(self.accounts.map()[k] == self.accounts@[i]);
                        if k != acct.id@ {
                            assert(store_map(before).dom().contains(k));
                            let j = crate::store::index_of_key(before, k);
                            lemma_store_map_index(before, j);
                            assert(before[j].wf());
                        }
                    }
                }
                Ok(())
            },
            Err(_) => Err(EclipseError::DuplicateId(id)),
        }
    }

    pub fn create(&mut self, id: AccountId, role: AccountRole, label: &str) -> (r: Result<()>)
        requires
            old(self).wf(),
        ensures
            final(self).wf(),
            old(self).map().dom().contains(id@) ==> r == Err::<(), EclipseError>(EclipseError::DuplicateId(id.0))
                && final(self).map() == old(self).map(),
            !old(self).map().dom().contains(id@) ==> r is Ok
                && final(self).map() == old(self).map().insert(id@, final(self).map()[id@])
                && final(self).map()[id@].id == id && final(self).map()[id@].role == role
                && final(self).map()[id@].label@ == label@ && !final(self).map()[id@].frozen
                && final(self).map()[id@].cells() == Map::<Seq<char>, BalanceCell>::empty(),
    {
        self.insert(AccountState::new(id, role, label))
    }

    /// The account under `id`, to be changed in place. A change that keeps its identifier and its
    /// own well-formedness keeps the book well formed and replaces that account in it.
    pub fn get_mut(&mut self, id: &AccountId) -> (r: Result<&mut AccountState>)
        requires
            old(self).wf(),
        ensures
            !old(self).map().dom().contains(id@) ==> r == Err::<&mut AccountState, EclipseError>(EclipseError::AccountNotFound(id.0))
                && *final(self) == *old(self),
            old(self).map().dom().contains(id@) ==> r is Ok && *r->Ok_0 == old(self).map()[id@],
            r is Ok && final(r->Ok_0).key() == id@ && final(r->Ok_0).wf() ==> final(self).wf()
                && final(self).map() == old(self).map().insert(id@, *final(r->Ok_0)),
    {
        let ghost before = self.accounts@;
        proof {
            let x = crate::store::index_of_key(before, id@);
            assert(crate::store::has_key(before, id@) ==> 0 <= x < before.len());
            assert forall|v: AccountState, j: int| 0 <= x < before.len() && v.wf() && 0 <= j < before.len()
                implies (#[trigger] before.update(x, v)[j]).wf() by {
                if j != x {
                    assert(before[j].wf());
                }
            }
        }
        match self.accounts.get_mut(id.as_str()) {
            Some(v) => Ok(v),
            None => Err(EclipseError::AccountNotFound(id.0.clone())),
        }
    }

    pub fn get(&self, id: &AccountId) -> (r: Result<&AccountState>)
        requires
            self.wf(),
        ensures
            self.map().dom().contains(id@) ==> r is Ok && *r->Ok_0 == self.map()[id@],
            !self.map().dom().contains(id@) ==> r == Err::<&AccountState, EclipseError>(EclipseError::AccountNotFound(id.0)),
    {
        match self.accounts.find(id.as_str()) {
            Some(i) => {
                proof { lemma_store_map_index(self.accounts@, i as int); }
                Ok(self.accounts.at(i))
            },
            None => Err(EclipseError::AccountNotFound(id.0.clone())),
        }
    }

    pub fn ensure(&self, id: &AccountId) -> (r: Result<()>)
        requires
            self.wf(),
        ensures
            self.map().dom().contains(id@) ==> r is Ok,
            !self.map().dom().contains(id@) ==> r == Err::<(), EclipseError>(EclipseError::AccountNotFound(id.0)),
    {
        match self.get(id) {
            Ok(_) => Ok(()),
            Err(e) => Err(e),
        }
    }

    /// Takes out the account at `i`, for the caller to put back after changing it.
    proof fn lemma_put_back_wf(before: Seq<AccountState>, i: int, a: AccountState)
        requires
            crate::store::sorted_by_key(before),
            forall|j: int| 0 <= j < before.len() ==> (#[trigger] before[j]).wf(),
            0 <= i < before.len(),
            a.wf(),
            a.key() == before[i].key(),
        ensures
            forall|j: int| 0 <= j < before.len() ==> (#[trigger] before.update(i, a)[j]).wf(),
            store_map(before.update(i, a)) == store_map(before).insert(a.key(), a),
            store_map(before)[a.key()] == before[i],
    {
        crate::store::lemma_store_update(before, i, a);
        lemma_store_map_index(before, i);
        assert forall|j: int| 0 <= j < before.len() implies (#[trigger] before.update(i, a)[j]).wf() by {
            if j != i {
                assert(before.update(i, a)[j] == before[j]);
            }
        }
    }

    pub fn deposit(&mut self, account: &AccountId, asset: AssetId, amount: Amount) -> (r: Result<()>)
        requires
            old(self).wf(),
        ensures
            final(self).wf(),
            !old(self).map().dom().contains(account@) ==> r == Err::<(), EclipseError>(EclipseError::AccountNotFound(account.0))
                && final(self).map() == old(self).map(),
            old(self).map().dom().contains(account@) ==> final(self).changed_only(*old(self), account@)
                && old(self).map()[account@].cell_effect(final(self).map()[account@], asset@,
                    credit_post(old(self).map()[account@].cell_of(asset@), amount), r),
    {
        match self.accounts.find(account.as_str()) {
            Some(i) => {
                let ghost before = self.accounts@;
                proof { lemma_store_map_index(before, i as int); assert(before[i as int].wf()); }
                let mut a = self.accounts.take(i);
                let r = a.credit(asset, amount);
                proof { Self::lemma_put_back_wf(before, i as int, a); }
                self.accounts.put_back(i, a, Ghost(before));
                proof { lemma_store_map_index(self.entries(), i as int); }
                r
            },
            None => Err(EclipseError::AccountNotFound(account.0.clone())),
        }
    }

    pub fn withdraw(&mut self, account: &AccountId, asset: &AssetId, amount: Amount) -> (r: Result<()>)
        requires
            old(self).wf(),
        ensures
            final(self).wf(),
            !old(self).map().dom().contains(account@) ==> r == Err::<(), EclipseError>(EclipseError::AccountNotFound(account.0))
                && final(self).map() == old(self).map(),
            old(self).map().dom().contains(account@) ==> final(self).changed_only(*old(self), account@)
                && old(self).map()[account@].checked_effect(final(self).map()[account@], *asset, amount,
                    debit_post(old(self).map()[account@].cell_of(asset@), amount), r),
    {
        match self.accounts.find(account.as_str()) {
            Some(i) => {
                let ghost before = self.accounts@;
                proof { lemma_store_map_index(before, i as int); assert(before[i as int].wf()); }
                let mut a = self.accounts.take(i);
                let r = a.debit(asset, amount);
                proof { Self::lemma_put_back_wf(before, i as int, a); }
                self.accounts.put_back(i, a, Ghost(before));
                proof { lemma_store_map_index(self.entries(), i as int); }
                r
            },
            None => Err(EclipseError::AccountNotFound(account.0.clone())),
        }
    }

    pub fn reserve(&mut self, account: &AccountId, asset: &AssetId, amount: Amount) -> (r: Result<()>)
        requires
            old(self).wf(),
        ensures
            final(self).wf(),
            !old(self).map().dom().contains(account@) ==> r == Err::<(), EclipseError>(EclipseError::AccountNotFound(account.0))
                && final(self).map() == old(self).map(),
            old(self).map().dom().contains(account@) ==> final(self).changed_only(*old(self), account@)
                && old(self).map()[account@].checked_effect(final(self).map()[account@], *asset, amount,
                    reserve_post(old(self).map()[account@].cell_of(asset@), amount), r),
    {
        match self.accounts.find(account.as_str()) {
            Some(i) => {
                let ghost before = self.accounts@;
                proof { lemma_store_map_index(before, i as int); assert(before[i as int].wf()); }
                let mut a = self.accounts.take(i);
                let r = a.reserve(asset, amount);
                proof { Self::lemma_put_back_wf(before, i as int, a); }
                self.accounts.put_back(i, a, Ghost(before));
                proof { lemma_store_map_index(self.entries(), i as int); }
                r
            },
            None => Err(EclipseError::AccountNotFound(account.0.clone())),
        }
    }

    pub fn release(&mut self, account: &AccountId, asset: &AssetId, amount: Amount) -> (r: Result<()>)
        requires
            old(self).wf(),
        ensures
            final(self).wf(),
            !old(self).map().dom().contains(account@) ==> r == Err::<(), EclipseError>(EclipseError::AccountNotFound(account.0))
                && final(self).map() == old(self).map(),
            old(self).map().dom().contains(account@) ==> final(self).changed_only(*old(self), account@)
                && old(self).map()[account@].cell_effect(final(self).map()[account@], asset@,
                    release_post(old(self).map()[account@].cell_of(asset@), amount), r),
    {
        match self.accounts.find(account.as_str()) {
            Some(i) => {
                let ghost before = self.accounts@;
                proof { lemma_store_map_index(before, i as int); assert(before[i as int].wf()); }
                let mut a = self.accounts.take(i);
                let r = a.release(asset, amount);
                proof { Self::lemma_put_back_wf(before, i as int, a); }
                self.accounts.put_back(i, a, Ghost(before));
                proof { lemma_store_map_index(self.entries(), i as int); }
                r
            },
            None => Err(EclipseError::AccountNotFound(account.0.clone())),
        }
    }

    /// Moves `amount` of `asset` from one account to another: a withdrawal, then a deposit.
    pub fn transfer(&mut self, from: &AccountId, to: &AccountId, asset: &AssetId, amount: Amount) -> (r: Result<()>)
        requires
            old(self).wf(),
        ensures
            final(self).wf(),
            transfer_outcome(old(self).map(), final(self).map(), *from, *to, *asset, amount, r),
    {
        if from.0 == to.0 || amount.is_zero() {
            return Ok(());
        }
        self.ensure(from)?;
        self.ensure(to)?;
        let ghost before = self.map();
        let rw = self.withdraw(from, asset, amount);
        let ghost mid = self.map();
        proof {
            let a = before[from@];
            if a.frozen {
                assert(rw is Err);
            } else if a.cell_of(asset@).available.0 < amount.0 {
                assert(rw is Err);
            }
            assert(rw is Ok <==> a.debit_succeeds(asset@, amount));
        }
        match rw {
            Ok(()) => {},
            Err(e) => {
                return Err(e);
            },
        }
        proof {
            assert(mid.dom().contains(to@));
            assert(mid[to@] == before[to@]);
        }
        let rd = self.deposit(to, asset.clone(), amount);
        proof {
            assert(self.map()[from@] == mid[from@]);
            assert(self.map() =~= before.insert(from@, self.map()[from@]).insert(to@, self.map()[to@]));
        }
        rd
    }

    pub fn balance(&self, account: &AccountId, asset: &AssetId) -> (r: Result<Amount>)
        requires
            self.wf(),
        ensures
            self.map().dom().contains(account@) ==> r == Ok::<Amount, EclipseError>(self.map()[account@].cell_of(asset@).available),
            !self.map().dom().contains(account@) ==> r == Err::<Amount, EclipseError>(EclipseError::AccountNotFound(account.0)),
    {
        let a = self.get(account)?;
        proof { if self.map().dom().contains(account@) { self.lemma_wf_map(account@); } }
        Ok(a.balance(asset))
    }

    pub fn contains(&self, account: &AccountId) -> (r: bool)
        requires
            self.wf(),
        ensures
            r == self.map().dom().contains(account@),
    {
        self.accounts.find(account.as_str()).is_some()
    }

    /// The accounts in identifier order.
    pub fn all_accounts(&self) -> (r: Vec<&AccountState>)
        ensures
            r@.len() == self.entries().len(),
            forall|i: int| 0 <= i < r@.len() ==> *#[trigger] r@[i] == self.entries()[i],
    {
        let mut out: Vec<&AccountState> = Vec::new();
        let mut i: usize = 0;
        while i < self.accounts.len()
            invariant
                i <= self.accounts@.len(),
                out@.len() == i,
                forall|j: int| 0 <= j < i ==> *#[trigger] out@[j] == self.accounts@[j],
            decreases self.accounts@.len() - i,
        {
            out.push(self.accounts.at(i));
            i = i + 1;
        }
        out
    }

    /// A description of every account, in identifier order.
    pub fn views(&self) -> (r: Vec<AccountView>)
        ensures
            r@.len() == self.entries().len(),
            forall|i: int| 0 <= i < r@.len() ==> (#[trigger] r@[i]).describes(self.entries()[i]),
    {
        let mut out: Vec<AccountView> = Vec::new();
        let mut i: usize = 0;
        while i < self.accounts.len()
            invariant
                i <= self.accounts@.len(),
                out@.len() == i,
                forall|j: int| 0 <= j < i ==> (#[trigger] out@[j]).describes(self.accounts@[j]),
            decreases self.accounts@.len() - i,
        {
            out.push(AccountView::from_account(self.accounts.at(i)));
            i = i + 1;
        }
        out
    }

    /// The available balance of `asset` summed over all accounts.
    pub fn total_available(&self, asset: &AssetId) -> (r: Result<Amount>)
        requires
            self.wf(),
        ensures
            sum_available(self.entries(), asset@) <= U128_MAX
                ==> r == Ok::<Amount, EclipseError>(Amount(sum_available(self.entries(), asset@) as u128)),
            sum_available(self.entries(), asset@) > U128_MAX ==> r == Err::<Amount, EclipseError>(EclipseError::AmountOverflow),
    {
        let mut acc = Amount(0);
        let mut i: usize = 0;
        let ghost s = self.entries();
        while i < self.accounts.len()
            invariant
                s == self.entries(),
                self.wf(),
                i <= s.len(),
                acc.0 == sum_available(s.take(i as int), asset@),
            decreases s.len() - i,
        {
            proof {
                assert(s.take(i + 1).drop_last() == s.take(i as int));
                lemma_sum_available_prefix(s, asset@, i + 1);
            }
            let b = self.accounts.at(i).balance(asset);
            match acc.checked_add(b) {
                Ok(next) => acc = next,
                Err(e) => return Err(e),
            }
            i = i + 1;
        }
        proof { assert(s.take(i as int) == s); }
        Ok(acc)
    }
}

/// A flattened balance.
#[derive(Debug, PartialEq, Eq)]
pub struct BalanceView {
    pub asset: AssetId,
    pub available: u128,
    pub reserved: u128,
    pub pending_credit: u128,
    pub cumulative_debit: u128,
    pub cumulative_credit: u128,
}

impl Clone for BalanceView {
    fn clone(&self) -> (r: Self)
        ensures
            r == *self,
    {
        BalanceView { asset: self.asset.clone(), ..*self }
    }
}

/// A copy of every BalanceView in order.
fn clone_balance_views(v: &Vec<BalanceView>) -> (r: Vec<BalanceView>)
    ensures
        r@ == v@,
{
    let mut out: Vec<BalanceView> = Vec::new();
    let mut i: usize = 0;
    while i < v.len()
        invariant
            i <= v@.len(),
            out@ == v@.take(i as int),
        decreases v@.len() - i,
    {
        out.push(v[i].clone());
        proof { assert(v@.take(i + 1) == v@.take(i as int).push(v@[i as int])); }
        i = i + 1;
    }
    proof { assert(v@.take(i as int) == v@); }
    out
}

impl Clone for AccountView {
    fn clone(&self) -> (r: Self)
        ensures
            r.copies(*self),
    {
        AccountView {
            id: self.id.clone(),
            role: self.role.clone(),
            label: self.label.clone(),
            frozen: self.frozen,
            balances: clone_balance_views(&self.balances),
        }
    }
}

impl BalanceView {
    pub open spec fn describes(&self, asset: AssetId, cell: BalanceCell) -> bool {
        &&& self.asset == asset
        &&& self.available == cell.available.0
        &&& self.reserved == cell.reserved.0
        &&& self.pending_credit == cell.pending_credit.0
        &&& self.cumulative_debit == cell.cumulative_debit.0
        &&& self.cumulative_credit == cell.cumulative_credit.0
    }

    pub fn from_cell(asset: AssetId, cell: &BalanceCell) -> (r: BalanceView)
        ensures
            r.describes(asset, *cell),
    {
        BalanceView {
            asset,
            available: cell.available.raw(),
            reserved: cell.reserved.raw(),
            pending_credit: cell.pending_credit.raw(),
            cumulative_debit: cell.cumulative_debit.raw(),
            cumulative_credit: cell.cumulative_credit.raw(),
        }
    }
}

/// A flattened account.
#[derive(Debug, PartialEq, Eq)]
pub struct AccountView {
    pub id: AccountId,
    pub role: String,
    pub label: String,
    pub frozen: bool,
    pub balances: Vec<BalanceView>,
}

impl AccountView {
    /// The same fields, the balances as the same sequence.
    pub open spec fn copies(&self, other: AccountView) -> bool {
        &&& self.id == other.id && self.role == other.role && self.label == other.label && self.frozen == other.frozen
        &&& self.balances@ == other.balances@
    }

    pub open spec fn describes(&self, account: AccountState) -> bool {
        &&& self.id == account.id
        &&& self.role@ == role_name(account.role)
        &&& self.label == account.label
        &&& self.frozen == account.frozen
        &&& self.balances@.len() == account.entries().len()
        &&& forall|i: int| 0 <= i < self.balances@.len()
            ==> (#[trigger] self.balances@[i]).describes(account.entries()[i].asset, account.entries()[i].cell)
    }

    pub fn from_account(value: &AccountState) -> (r: AccountView)
        ensures
            r.describes(*value),
    {
        let mut balances: Vec<BalanceView> = Vec::new();
        let entries = value.balances();
        let mut i: usize = 0;
        while i < entries.len()
            invariant
                entries@ == value.entries(),
                i <= entries@.len(),
                balances@.len() == i,
                forall|j: int| 0 <= j < i ==> (#[trigger] balances@[j]).describes(entries@[j].asset, entries@[j].cell),
            decreases entries@.len() - i,
        {
            balances.push(BalanceView::from_cell(entries[i].asset.clone(), &entries[i].cell));
            i = i + 1;
        }
        let mut role = String::new();
        push_str(&mut role, value.role.as_str());
        AccountView { id: value.id.clone(), role, label: value.label.clone(), frozen: value.frozen, balances }
    }
}

/// A planned movement between two accounts.
#[derive(Debug, PartialEq, Eq)]
pub struct TransferPlan {
    pub from: AccountId,
    pub to: AccountId,
    pub asset: AssetId,
    pub amount: Amount,
    pub memo: String,
}

impl Clone for TransferPlan {
    fn clone(&self) -> (r: Self)
        ensures
            r == *self,
    {
        TransferPlan { from: self.from.clone(), to: self.to.clone(), asset: self.asset.clone(), amount: self.amount, memo: self.memo.clone() }
    }
}

impl TransferPlan {
    pub fn new(from: AccountId, to: AccountId, asset: AssetId, amount: Amount, memo: &str) -> (r: TransferPlan)
        ensures
            r.from == from && r.to == to && r.asset == asset && r.amount == amount && r.memo@ == memo@,
    {
        TransferPlan { from, to, asset, amount, memo: memo.to_owned() }
    }

    /// Carries out the plan on `accounts`; the effect is that of `AccountBook::transfer`.
    pub fn apply(&self, accounts: &mut AccountBook) -> (r: Result<()>)
        requires
            old(accounts).wf(),
        ensures
            final(accounts).wf(),
            transfer_outcome(old(accounts).map(), final(accounts).map(), self.from, self.to, self.asset, self.amount, r),
    {
        accounts.transfer(&self.from, &self.to, &self.asset, self.amount)
    }
}

} // verus!
