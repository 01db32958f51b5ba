use crate::accounts::{credit_post, role_name, transfer_outcome, AccountBook, AccountRole, AccountView};
use crate::amount::{floor_muldiv, Amount, BasisPoints, Ratio, U128_MAX};
use crate::asset::{Asset, AssetBook, AssetClass};
use crate::auction::{score_fits_exec, score_in_range, select_winner_outcome, submit_outcome, AuctionBook, BidMetadata, BidRequest, BidView};
use crate::batch::{batch_select_outcome, BatchBook, BatchOrder, BatchRecord, BatchStatus, BatchView};
use crate::error::{EclipseError, Result};
use crate::events::{Event, EventLog};
use crate::ids::{AccountId, AssetId, BatchId, BidId, OperatorId, RouteId};
use crate::operators::{pledge_post, OperatorBook, OperatorProfile, OperatorStatus, OperatorView};
use crate::policy::POLICY_CEILING;
use crate::risk::{RiskConfig, RiskEngine};
use crate::routes::{RouteBook, RouteClass, RouteLeg, RoutePlan, RouteView};
use crate::settlement::{settle_selected_outcome, SettlementConfig, SettlementEngine, SettlementReceipt};
use crate::text::push_str;
use vstd::prelude::*;

verus! {

/// One step of a scenario.
#[derive(Clone, Debug, PartialEq, Eq)]
pub enum ScenarioAction {
    RegisterAsset {
        id: AssetId,
        symbol: String,
        decimals: u8,
        class: AssetClass,
        transfer_fee_bps: Option<u32>,
        risk_weight_bps: Option<u32>,
    },
    CreateAccount {
        id: AccountId,
        role: AccountRole,
        label: Option<String>,
    },
    Deposit {
        account: AccountId,
        asset: AssetId,
        amount: u64,
    },
    Transfer {
        from: AccountId,
        to: AccountId,
        asset: AssetId,
        amount: u64,
    },
    RegisterOperator {
        id: OperatorId,
        display_name: String,
        lane: String,
        fee_account: AccountId,
        reliability_bps: Option<u32>,
        fee_floor_bps: Option<u32>,
    },
    PledgeGuarantee {
        operator: OperatorId,
        amount: u64,
    },
    SetOperatorStatus {
        operator: OperatorId,
        status: OperatorStatus,
    },
    AllocateCommitment {
        operator: OperatorId,
        amount: u64,
        label: Option<String>,
    },
    RegisterRoute {
        id: RouteId,
        label: String,
        class: RouteClass,
        source: AssetId,
        target: AssetId,
        price_numerator: u64,
        price_denominator: u64,
        max_slippage_bps: Option<u32>,
        min_input: Option<u64>,
        max_input: Option<u64>,
        guarantee_bps_floor: Option<u32>,
        liquidity_floor: Option<u64>,
        fallback_rank: Option<u32>,
        venue: Option<String>,
    },
    OpenBatch {
        id: BatchId,
        payer: AccountId,
        recipient: AccountId,
        source: AssetId,
        target: AssetId,
        amount_in: u64,
        min_out: u64,
        opened_at: u64,
        deadline: u64,
        allow_fallback: Option<bool>,
        memo: Option<String>,
    },
    SubmitBid {
        id: BidId,
        batch: BatchId,
        route: RouteId,
        operator: OperatorId,
        price_numerator: u64,
        price_denominator: u64,
        fee_bps: u32,
        guarantee_bps: u32,
        received_at: u64,
        expires_at: u64,
        lane: Option<String>,
        quote_ref: Option<String>,
    },
    SelectWinner {
        batch: BatchId,
        now: u64,
    },
    SettleBatch {
        batch: BatchId,
        now: u64,
        allow_fallback: Option<bool>,
    },
    Snapshot {
        name: String,
    },
}

/// A scenario: its name, the vault it settles through, and its steps.
#[derive(Clone, Debug, PartialEq, Eq)]
pub struct ScenarioFile {
    pub name: String,
    pub vault_account: Option<AccountId>,
    pub actions: Vec<ScenarioAction>,
}

/// The state of the books at a named moment.
#[derive(Debug, PartialEq, Eq)]
pub struct NamedSnapshot {
    pub name: String,
    pub accounts: Vec<AccountView>,
    pub operators: Vec<OperatorView>,
    pub batches: Vec<BatchView>,
    pub bids: Vec<BidView>,
}

impl NamedSnapshot {
    /// The same name and views.
    pub open spec fn copies(&self, other: NamedSnapshot) -> bool {
        &&& self.name == other.name
        &&& self.accounts@.len() == other.accounts@.len()
        &&& forall|i: int| 0 <= i < self.accounts@.len() ==> (#[trigger] self.accounts@[i]).copies(other.accounts@[i])
        &&& self.operators@.len() == other.operators@.len()
        &&& forall|i: int| 0 <= i < self.operators@.len() ==> (#[trigger] self.operators@[i]).copies(other.operators@[i])
        &&& self.batches@ == other.batches@
        &&& self.bids@ == other.bids@
    }
}

fn copy_accounts(v: &Vec<AccountView>) -> (r: Vec<AccountView>)
    ensures
        r@.len() == v@.len(),
        forall|i: int| 0 <= i < r@.len() ==> (#[trigger] r@[i]).copies(v@[i]),
{
    let mut out: Vec<AccountView> = Vec::new();
    let mut i: usize = 0;
    while i < v.len()
        invariant
            i <= v@.len(),
            out@.len() == i,
            forall|j: int| 0 <= j < i ==> (#[trigger] out@[j]).copies(v@[j]),
        decreases v@.len() - i,
    {
        out.push(v[i].clone());
        i = i + 1;
    }
    out
}

fn copy_operators(v: &Vec<OperatorView>) -> (r: Vec<OperatorView>)
    ensures
        r@.len() == v@.len(),
        forall|i: int| 0 <= i < r@.len() ==> (#[trigger] r@[i]).copies(v@[i]),
{
    let mut out: Vec<OperatorView> = Vec::new();
    let mut i: usize = 0;
    while i < v.len()
        invariant
            i <= v@.len(),
            out@.len() == i,
            forall|j: int| 0 <= j < i ==> (#[trigger] out@[j]).copies(v@[j]),
        decreases v@.len() - i,
    {
        out.push(v[i].clone());
        i = i + 1;
    }
    out
}

fn copy_all<T: Clone>(v: &Vec<T>) -> (r: Vec<T>)
    requires
        forall|a: T, b: T| #[trigger] call_ensures(T::clone, (&a,), b) ==> b == a,
    ensures
        r@ == v@,
{
    let mut out: Vec<T> = Vec::new();
    let mut i: usize = 0;
    while i < v.len()
        invariant
            i <= v@.len(),
            out@ == v@.take(i as int),
            forall|a: T, b: T| #[trigger] call_ensures(T::clone, (&a,), b) ==> b == a,
        decreases v@.len() - i,
    {
        let c = v[i].clone();
        out.push(c);
        proof { assert(v@.take(i + 1) == v@.take(i as int).push(v@[i as int])); }
        i = i + 1;
    }
    proof { assert(v@.take(i as int) == v@); }
    out
}

impl Clone for NamedSnapshot {
    fn clone(&self) -> (r: Self)
        ensures
            r.copies(*self),
    {
        NamedSnapshot {
            name: self.name.clone(),
            accounts: copy_accounts(&self.accounts),
            operators: copy_operators(&self.operators),
            batches: copy_all(&self.batches),
            bids: copy_all(&self.bids),
        }
    }
}

/// Everything a scenario produced.
#[derive(Clone, Debug, PartialEq, Eq)]
pub struct ScenarioReport {
    pub name: String,
    pub events: Vec<Event>,
    pub accounts: Vec<AccountView>,
    pub operators: Vec<OperatorView>,
    pub routes: Vec<RouteView>,
    pub batches: Vec<BatchView>,
    pub bids: Vec<BidView>,
    pub receipts: Vec<SettlementReceipt>,
    pub snapshots: Vec<NamedSnapshot>,
}

/// The books a scenario runs against.
#[derive(Debug)]
pub struct ScenarioRuntime {
    pub name: String,
    pub assets: AssetBook,
    pub accounts: AccountBook,
    pub operators: OperatorBook,
    pub routes: RouteBook,
    pub auction: AuctionBook,
    pub batches: BatchBook,
    pub risk: RiskEngine,
    pub settlement: SettlementEngine,
    pub events: EventLog,
    pub receipts: Vec<SettlementReceipt>,
    pub snapshots: Vec<NamedSnapshot>,
}

/// The books' invariants.
pub open spec fn runtime_wf(rt: ScenarioRuntime) -> bool {
    &&& rt.assets.wf()
    &&& rt.accounts.wf()
    &&& rt.operators.wf()
    &&& rt.routes.wf()
    &&& rt.auction.wf()
    &&& rt.batches.wf()
}

/// The parts that no step changes stay as they were, and the books keep their invariants.
pub open spec fn fixed_parts(b: ScenarioRuntime, a: ScenarioRuntime) -> bool {
    &&& a.name == b.name && a.risk == b.risk && a.settlement == b.settlement
    &&& runtime_wf(a)
}

pub open spec fn same_assets(b: ScenarioRuntime, a: ScenarioRuntime) -> bool { a.assets.map() == b.assets.map() }
pub open spec fn same_accounts(b: ScenarioRuntime, a: ScenarioRuntime) -> bool { a.accounts.map() == b.accounts.map() }
pub open spec fn same_operators(b: ScenarioRuntime, a: ScenarioRuntime) -> bool { a.operators.map() == b.operators.map() }
pub open spec fn same_routes(b: ScenarioRuntime, a: ScenarioRuntime) -> bool { a.routes.map() == b.routes.map() }
pub open spec fn same_auction(b: ScenarioRuntime, a: ScenarioRuntime) -> bool { a.auction.map() == b.auction.map() }
pub open spec fn same_batches(b: ScenarioRuntime, a: ScenarioRuntime) -> bool { a.batches.map() == b.batches.map() }
pub open spec fn same_events(b: ScenarioRuntime, a: ScenarioRuntime) -> bool { a.events.events@ == b.events.events@ }
pub open spec fn same_records(b: ScenarioRuntime, a: ScenarioRuntime) -> bool {
    a.receipts@ == b.receipts@ && a.snapshots@ == b.snapshots@
}

/// Nothing changed.
pub open spec fn unchanged(b: ScenarioRuntime, a: ScenarioRuntime) -> bool {
    &&& fixed_parts(b, a)
    &&& same_assets(b, a) && same_accounts(b, a) && same_operators(b, a) && same_routes(b, a)
    &&& same_auction(b, a) && same_batches(b, a) && same_events(b, a) && same_records(b, a)
}

/// An optional switch, off when absent.
pub open spec fn flag(o: Option<bool>) -> bool {
    o is Some && o->Some_0
}

/// The error of a basis-point value given as an option, if it is out of range.
pub open spec fn bps_error(v: Option<u32>) -> bool {
    v is Some && v->Some_0 > 10_000
}

/// The asset that a registration creates.
pub open spec fn registered_asset(x: Asset, id: AssetId, symbol: Seq<char>, decimals: u8, class: AssetClass,
    fee: Option<u32>, weight: Option<u32>) -> bool {
    &&& x.id == id && x.symbol@ == symbol && x.decimals == decimals && x.class == class && x.enabled
    &&& x.transfer_fee_bps.0 == (if fee is Some { fee->Some_0 } else { 0 })
    &&& x.risk_weight_bps.0 == (if weight is Some { weight->Some_0 } else { 10_000 })
    &&& x.min_settlement_unit.0 == 1
    &&& x.metadata.issuer@ == "Eclipse Clearing"@
    &&& x.metadata.settlement_domain@ == "internal"@
    &&& x.metadata.external_symbol@ == Seq::<char>::empty()
}

pub open spec fn register_asset_outcome(b: ScenarioRuntime, a: ScenarioRuntime, id: AssetId, symbol: String, decimals: u8,
    class: AssetClass, fee: Option<u32>, weight: Option<u32>, r: Result<()>) -> bool {
    if bps_error(fee) {
        r == Err::<(), EclipseError>(EclipseError::InvalidBasisPoints(fee->Some_0)) && unchanged(b, a)
    } else if bps_error(weight) {
        r == Err::<(), EclipseError>(EclipseError::InvalidBasisPoints(weight->Some_0)) && unchanged(b, a)
    } else if b.assets.map().dom().contains(id@) {
        r == Err::<(), EclipseError>(EclipseError::DuplicateId(id.0)) && unchanged(b, a)
    } else {
        &&& r is Ok && fixed_parts(b, a)
        &&& same_accounts(b, a) && same_operators(b, a) && same_routes(b, a) && same_auction(b, a) && same_batches(b, a)
        &&& same_records(b, a)
        &&& a.assets.map() == b.assets.map().insert(id@, a.assets.map()[id@])
        &&& registered_asset(a.assets.map()[id@], id, symbol@, decimals, class, fee, weight)
        &&& a.events.events@ == b.events.events@.push(Event::AssetRegistered { asset: id, symbol })
    }
}

pub open spec fn create_account_outcome(b: ScenarioRuntime, a: ScenarioRuntime, id: AccountId, role: AccountRole,
    label: Option<String>, r: Result<()>) -> bool {
    if b.accounts.map().dom().contains(id@) {
        r == Err::<(), EclipseError>(EclipseError::DuplicateId(id.0)) && unchanged(b, a)
    } else {
        let acct = a.accounts.map()[id@];
        &&& r is Ok && fixed_parts(b, a)
        &&& same_assets(b, a) && same_operators(b, a) && same_routes(b, a) && same_auction(b, a) && same_batches(b, a)
        &&& same_records(b, a)
        &&& a.accounts.map() == b.accounts.map().insert(id@, acct)
        &&& acct.id == id && acct.role == role && !acct.frozen
        &&& acct.label@ == (if label is Some { label->Some_0@ } else { id@ })
        &&& acct.cells() == Map::<Seq<char>, crate::accounts::BalanceCell>::empty()
        &&& a.events.events@.len() == b.events.events@.len() + 1
        &&& a.events.events@.drop_last() == b.events.events@
        &&& a.events.events@.last() matches Event::AccountCreated { account, role: name } && account == id
            && name@ == role_name(role)
    }
}

/// The error of looking up an enabled asset, if any.
pub open spec fn asset_check(assets: AssetBook, id: AssetId) -> Option<EclipseError> {
    if !assets.map().dom().contains(id@) {
        Some(EclipseError::AssetNotFound(id.0))
    } else if !assets.map()[id@].enabled {
        Some(EclipseError::AssetDisabled(assets.map()[id@].id.0))
    } else {
        None
    }
}

pub open spec fn deposit_outcome(b: ScenarioRuntime, a: ScenarioRuntime, account: AccountId, asset: AssetId, amount: u64,
    r: Result<()>) -> bool {
    if asset_check(b.assets, asset) is Some {
        r == Err::<(), EclipseError>(asset_check(b.assets, asset)->Some_0) && unchanged(b, a)
    } else if !b.accounts.map().dom().contains(account@) {
        r == Err::<(), EclipseError>(EclipseError::AccountNotFound(account.0)) && unchanged(b, a)
    } else {
        &&& fixed_parts(b, a)
        &&& same_assets(b, a) && same_operators(b, a) && same_routes(b, a) && same_auction(b, a) && same_batches(b, a)
        &&& same_records(b, a)
        &&& a.accounts.changed_only(b.accounts, account@)
        &&& b.accounts.map()[account@].cell_effect(a.accounts.map()[account@], asset@,
            credit_post(b.accounts.map()[account@].cell_of(asset@), Amount(amount as u128)), r)
        &&& r is Ok ==> a.events.events@ == b.events.events@.push(Event::Deposit { account, asset, amount: amount as u128 })
        &&& r is Err ==> same_events(b, a)
    }
}

pub open spec fn transfer_step_outcome(b: ScenarioRuntime, a: ScenarioRuntime, from: AccountId, to: AccountId,
    asset: AssetId, amount: u64, r: Result<()>) -> bool {
    if asset_check(b.assets, asset) is Some {
        r == Err::<(), EclipseError>(asset_check(b.assets, asset)->Some_0) && unchanged(b, a)
    } else {
        &&& fixed_parts(b, a)
        &&& same_assets(b, a) && same_operators(b, a) && same_routes(b, a) && same_auction(b, a) && same_batches(b, a)
        &&& same_records(b, a)
        &&& transfer_outcome(b.accounts.map(), a.accounts.map(), from, to, asset, Amount(amount as u128), r)
        &&& r is Ok ==> a.events.events@ == b.events.events@
            .push(Event::Withdrawal { account: from, asset, amount: amount as u128 })
            .push(Event::Deposit { account: to, asset, amount: amount as u128 })
        &&& r is Err ==> same_events(b, a)
    }
}

/// The operator that a registration creates.
pub open spec fn registered_operator(op: OperatorProfile, id: OperatorId, display_name: Seq<char>, lane: Seq<char>,
    fee_account: AccountId, reliability: Option<u32>, fee_floor: Option<u32>) -> bool {
    &&& op.wf()
    &&& op.id == id && op.display_name@ == display_name && op.lane@ == lane && op.fee_account == fee_account
    &&& op.status == OperatorStatus::Active
    &&& op.guarantee == (crate::operators::GuaranteeState { pledged: Amount(0), locked: Amount(0), pending_release: Amount(0),
        slash_accumulator: Amount(0), reserve_floor_bps: BasisPoints(0) })
    &&& op.exposure.routes() == Map::<Seq<char>, crate::operators::ExposureCell>::empty()
    &&& op.exposure.assets() == Map::<Seq<char>, Amount>::empty()
    &&& op.exposure.external_commitment.0 == 0
    &&& op.reliability_bps.0 == (if reliability is Some { reliability->Some_0 } else { 10_000 })
    &&& op.fee_floor_bps.0 == (if fee_floor is Some { fee_floor->Some_0 } else { 0 })
    &&& op.max_open_batches == 64
    &&& op.tags@.len() == 0
}

pub open spec fn register_operator_outcome(b: ScenarioRuntime, a: ScenarioRuntime, id: OperatorId, display_name: String,
    lane: String, fee_account: AccountId, reliability: Option<u32>, fee_floor: Option<u32>, r: Result<()>) -> bool {
    if !b.accounts.map().dom().contains(fee_account@) {
        r == Err::<(), EclipseError>(EclipseError::AccountNotFound(fee_account.0)) && unchanged(b, a)
    } else if bps_error(reliability) {
        r == Err::<(), EclipseError>(EclipseError::InvalidBasisPoints(reliability->Some_0)) && unchanged(b, a)
    } else if bps_error(fee_floor) {
        r == Err::<(), EclipseError>(EclipseError::InvalidBasisPoints(fee_floor->Some_0)) && unchanged(b, a)
    } else if b.operators.map().dom().contains(id@) {
        r == Err::<(), EclipseError>(EclipseError::DuplicateId(id.0)) && unchanged(b, a)
    } else {
        &&& r is Ok && fixed_parts(b, a)
        &&& same_assets(b, a) && same_accounts(b, a) && same_routes(b, a) && same_auction(b, a) && same_batches(b, a)
        &&& same_records(b, a)
        &&& a.operators.map() == b.operators.map().insert(id@, a.operators.map()[id@])
        &&& registered_operator(a.operators.map()[id@], id, display_name@, lane@, fee_account, reliability, fee_floor)
        &&& a.events.events@ == b.events.events@.push(Event::OperatorRegistered { operator: id, lane })
    }
}

pub open spec fn pledge_outcome(b: ScenarioRuntime, a: ScenarioRuntime, operator: OperatorId, amount: u64, r: Result<()>) -> bool {
    if !b.operators.map().dom().contains(operator@) {
        r == Err::<(), EclipseError>(EclipseError::OperatorNotFound(operator.0)) && unchanged(b, a)
    } else {
        &&& fixed_parts(b, a)
        &&& same_assets(b, a) && same_accounts(b, a) && same_routes(b, a) && same_auction(b, a) && same_batches(b, a)
        &&& same_records(b, a)
        &&& a.operators.changed_only(b.operators, operator@)
        &&& a.operators.map()[operator@].same_identity(b.operators.map()[operator@])
        &&& a.operators.map()[operator@].exposure == b.operators.map()[operator@].exposure
        &&& (a.operators.map()[operator@].guarantee, r) == pledge_post(b.operators.map()[operator@].guarantee, Amount(amount as u128))
        &&& r is Ok ==> a.events.events@ == b.events.events@.push(Event::GuaranteePledged { operator, amount: amount as u128 })
        &&& r is Err ==> same_events(b, a)
    }
}

pub open spec fn set_status_outcome(b: ScenarioRuntime, a: ScenarioRuntime, operator: OperatorId, status: OperatorStatus,
    r: Result<()>) -> bool {
    if !b.operators.map().dom().contains(operator@) {
        r == Err::<(), EclipseError>(EclipseError::OperatorNotFound(operator.0)) && unchanged(b, a)
    } else {
        &&& r is Ok && fixed_parts(b, a)
        &&& same_assets(b, a) && same_accounts(b, a) && same_routes(b, a) && same_auction(b, a) && same_batches(b, a)
        &&& same_events(b, a) && same_records(b, a)
        &&& a.operators.map() == b.operators.map().insert(operator@, OperatorProfile { status, ..b.operators.map()[operator@] })
    }
}

pub open spec fn commitment_outcome(b: ScenarioRuntime, a: ScenarioRuntime, operator: OperatorId, amount: u64,
    label: Option<String>, r: Result<()>) -> bool {
    if !b.operators.map().dom().contains(operator@) {
        r == Err::<(), EclipseError>(EclipseError::OperatorNotFound(operator.0)) && unchanged(b, a)
    } else {
        &&& fixed_parts(b, a)
        &&& same_assets(b, a) && same_accounts(b, a) && same_routes(b, a) && same_auction(b, a) && same_batches(b, a)
        &&& same_records(b, a)
        &&& a.operators.changed_only(b.operators, operator@)
        &&& b.operators.map()[operator@].external_effect(a.operators.map()[operator@], Amount(amount as u128), r)
        &&& r is Err ==> same_events(b, a)
        &&& r is Ok ==> a.events.events@.len() == b.events.events@.len() + 1 && a.events.events@.drop_last() == b.events.events@
            && (a.events.events@.last() matches Event::OperatorCommitment { operator: o, route, amount: m, label: l }
                && o == operator && route@ == "external"@ && m == amount as u128
                && l@ == (if label is Some { label->Some_0@ } else { "portfolio"@ }))
    }
}

/// The route that a registration creates: one leg over the given price, with the given or default
/// limits.
pub open spec fn registered_route(x: RoutePlan, id: RouteId, label: Seq<char>, class: RouteClass, source: AssetId,
    target: AssetId, price_numerator: u64, price_denominator: u64, slippage: Option<u32>, min_input: Option<u64>,
    max_input: Option<u64>, floor: Option<u32>, liquidity_floor: Option<u64>, rank: Option<u32>, venue: Option<String>) -> bool {
    &&& x.id == id && x.label@ == label && x.class == class && x.source == source && x.target == target && x.enabled
    &&& x.legs@.len() == 1
    &&& x.legs@[0].source == source && x.legs@[0].target == target
    &&& x.legs@[0].price == (Ratio { numerator: price_numerator as u128, denominator: price_denominator as u128 })
    &&& x.legs@[0].max_slippage_bps.0 == (if slippage is Some { slippage->Some_0 } else { 50 })
    &&& x.legs@[0].venue@ == (if venue is Some { venue->Some_0@ } else { "internal"@ })
    &&& x.min_input.0 == (if min_input is Some { min_input->Some_0 as u128 } else { 1 })
    &&& x.max_input.0 == (if max_input is Some { max_input->Some_0 as u128 } else { POLICY_CEILING })
    &&& x.guarantee_bps_floor.0 == (if floor is Some { floor->Some_0 } else { 0 })
    &&& x.operator_reliability_floor_bps.0 == 0
    &&& x.liquidity_floor.0 == (if liquidity_floor is Some { liquidity_floor->Some_0 as u128 } else { 0 })
    &&& x.fallback_rank == (if rank is Some { rank->Some_0 } else { 100 })
}

pub open spec fn register_route_outcome(b: ScenarioRuntime, a: ScenarioRuntime, id: RouteId, label: String, class: RouteClass,
    source: AssetId, target: AssetId, price_numerator: u64, price_denominator: u64, slippage: Option<u32>,
    min_input: Option<u64>, max_input: Option<u64>, floor: Option<u32>, liquidity_floor: Option<u64>, rank: Option<u32>,
    venue: Option<String>, r: Result<()>) -> bool {
    if asset_check(b.assets, source) is Some {
        r == Err::<(), EclipseError>(asset_check(b.assets, source)->Some_0) && unchanged(b, a)
    } else if asset_check(b.assets, target) is Some {
        r == Err::<(), EclipseError>(asset_check(b.assets, target)->Some_0) && unchanged(b, a)
    } else if price_denominator == 0 {
        r == Err::<(), EclipseError>(EclipseError::DivisionByZero) && unchanged(b, a)
    } else if bps_error(slippage) {
        r == Err::<(), EclipseError>(EclipseError::InvalidBasisPoints(slippage->Some_0)) && unchanged(b, a)
    } else if bps_error(floor) {
        r == Err::<(), EclipseError>(EclipseError::InvalidBasisPoints(floor->Some_0)) && unchanged(b, a)
    } else if b.routes.map().dom().contains(id@) {
        r == Err::<(), EclipseError>(EclipseError::DuplicateId(id.0)) && unchanged(b, a)
    } else {
        &&& r is Ok && fixed_parts(b, a)
        &&& same_assets(b, a) && same_accounts(b, a) && same_operators(b, a) && same_auction(b, a) && same_batches(b, a)
        &&& same_records(b, a)
        &&& a.routes.map() == b.routes.map().insert(id@, a.routes.map()[id@])
        &&& registered_route(a.routes.map()[id@], id, label@, class, source, target, price_numerator, price_denominator,
            slippage, min_input, max_input, floor, liquidity_floor, rank, venue)
        &&& a.events.events@ == b.events.events@.push(Event::RouteRegistered { route: id, source, target })
    }
}

pub open spec fn open_batch_outcome(b: ScenarioRuntime, a: ScenarioRuntime, id: BatchId, payer: AccountId,
    recipient: AccountId, source: AssetId, target: AssetId, amount_in: u64, min_out: u64, opened_at: u64, deadline: u64,
    allow_fallback: Option<bool>, memo: Option<String>, r: Result<()>) -> bool {
    if !b.accounts.map().dom().contains(payer@) {
        r == Err::<(), EclipseError>(EclipseError::AccountNotFound(payer.0)) && unchanged(b, a)
    } else if !b.accounts.map().dom().contains(recipient@) {
        r == Err::<(), EclipseError>(EclipseError::AccountNotFound(recipient.0)) && unchanged(b, a)
    } else if asset_check(b.assets, source) is Some {
        r == Err::<(), EclipseError>(asset_check(b.assets, source)->Some_0) && unchanged(b, a)
    } else if asset_check(b.assets, target) is Some {
        r == Err::<(), EclipseError>(asset_check(b.assets, target)->Some_0) && unchanged(b, a)
    } else if b.batches.map().dom().contains(id@) {
        r == Err::<(), EclipseError>(EclipseError::DuplicateId(id.0)) && unchanged(b, a)
    } else {
        let rec = a.batches.map()[id@];
        &&& r is Ok && fixed_parts(b, a)
        &&& same_assets(b, a) && same_accounts(b, a) && same_operators(b, a) && same_routes(b, a) && same_auction(b, a)
        &&& same_records(b, a)
        &&& a.batches.map() == b.batches.map().insert(id@, rec)
        &&& rec.status == BatchStatus::Open && rec.selected_bid is None && rec.fallback_bid is None
        &&& rec.closed_at is None && rec.fail_reason is None
        &&& rec.order.id == id && rec.order.payer == payer && rec.order.recipient == recipient
        &&& rec.order.source == source && rec.order.target == target
        &&& rec.order.amount_in.0 == amount_in as u128 && rec.order.min_out.0 == min_out as u128
        &&& rec.order.opened_at == opened_at && rec.order.deadline == deadline
        &&& rec.order.allow_fallback == flag(allow_fallback)
        &&& rec.order.memo@ == (if memo is Some { memo->Some_0@ } else { Seq::<char>::empty() })
        &&& a.events.events@ == b.events.events@.push(Event::BatchOpened {
            batch: id,
            source,
            target,
            amount_in: amount_in as u128,
            min_out: min_out as u128,
        })
    }
}

/// The request that a scenario builds for a bid on a batch whose order is `order`.
pub open spec fn scenario_request(req: BidRequest, id: BidId, batch: BatchId, route: RouteId, operator: OperatorId,
    order: BatchOrder, price_numerator: u64, price_denominator: u64, fee_bps: u32, guarantee_bps: u32, received_at: u64,
    expires_at: u64, lane: Option<String>, quote_ref: Option<String>, client: Seq<char>) -> bool {
    &&& req.id == id && req.batch == batch && req.route == route && req.operator == operator
    &&& req.amount_in == order.amount_in
    &&& req.price == (Ratio { numerator: price_numerator as u128, denominator: price_denominator as u128 })
    &&& req.fee_bps == BasisPoints(fee_bps) && req.guarantee_bps == BasisPoints(guarantee_bps)
    &&& req.received_at == received_at && req.expires_at == expires_at
    &&& req.metadata.lane@ == (if lane is Some { lane->Some_0@ } else { Seq::<char>::empty() })
    &&& req.metadata.client_tag@ == client
    &&& req.metadata.quote_ref@ == (if quote_ref is Some { quote_ref->Some_0@ } else { Seq::<char>::empty() })
}

pub open spec fn submit_bid_outcome(b: ScenarioRuntime, a: ScenarioRuntime, id: BidId, batch: BatchId, route: RouteId,
    operator: OperatorId, price_numerator: u64, price_denominator: u64, fee_bps: u32, guarantee_bps: u32, received_at: u64,
    expires_at: u64, lane: Option<String>, quote_ref: Option<String>, r: Result<()>) -> bool {
    if !b.batches.map().dom().contains(batch@) {
        r == Err::<(), EclipseError>(EclipseError::BatchNotFound(batch.0)) && unchanged(b, a)
    } else if price_denominator == 0 {
        r == Err::<(), EclipseError>(EclipseError::DivisionByZero) && unchanged(b, a)
    } else if fee_bps > 10_000 {
        r == Err::<(), EclipseError>(EclipseError::InvalidBasisPoints(fee_bps)) && unchanged(b, a)
    } else if guarantee_bps > 10_000 {
        r == Err::<(), EclipseError>(EclipseError::InvalidBasisPoints(guarantee_bps)) && unchanged(b, a)
    } else {
        exists|req: BidRequest|
            #[trigger] scenario_request(req, id, batch, route, operator, b.batches.map()[batch@].order, price_numerator,
                price_denominator, fee_bps, guarantee_bps, received_at, expires_at, lane, quote_ref, b.name@)
            && if !score_in_range(b.auction, req, received_at, b.assets, b.accounts, b.operators, b.routes,
                b.risk.config) {
                r == Err::<(), EclipseError>(EclipseError::AmountOverflow) && unchanged(b, a)
            } else {
                exists|rt: Result<crate::auction::BidTicket>|
                    #[trigger] submit_outcome(b.auction, a.auction, req, received_at, b.assets, b.accounts, b.operators,
                        b.routes, b.risk.config, rt)
                    && fixed_parts(b, a)
                    && same_assets(b, a) && same_accounts(b, a) && same_operators(b, a) && same_routes(b, a)
                    && same_batches(b, a) && same_records(b, a)
                    && (rt is Err ==> r == Err::<(), EclipseError>(rt->Err_0) && same_events(b, a))
                    && (rt is Ok ==> r is Ok && a.events.events@ == b.events.events@.push(Event::BidSubmitted {
                        bid: id,
                        batch,
                        route,
                        operator,
                        expected_net: rt->Ok_0.assessment.snapshot.projected_net_out,
                    }))
            }
    }
}

pub open spec fn select_winner_step_outcome(b: ScenarioRuntime, a: ScenarioRuntime, batch: BatchId, now: u64,
    r: Result<()>) -> bool {
    exists|auc: AuctionBook, rw: Result<crate::auction::BidTicket>|
        #[trigger] select_winner_outcome(b.auction, auc, batch, now, rw)
        && if rw is Err {
            r == Err::<(), EclipseError>(rw->Err_0) && unchanged(b, a)
        } else {
            exists|rs: Result<()>| #[trigger] batch_select_outcome(b.batches, a.batches, batch, rw->Ok_0, rs)
                && a.auction.map() == auc.map()
                && fixed_parts(b, a)
                && same_assets(b, a) && same_accounts(b, a) && same_operators(b, a) && same_routes(b, a)
                && same_records(b, a)
                && if rs is Err {
                    r == Err::<(), EclipseError>(rs->Err_0) && same_events(b, a)
                } else {
                    r is Ok && a.events.events@ == b.events.events@.push(Event::BidSelected {
                        batch,
                        bid: rw->Ok_0.request.id,
                        operator: rw->Ok_0.request.operator,
                        score: rw->Ok_0.score.final_score,
                    })
                }
        }
}

pub open spec fn settle_batch_outcome(b: ScenarioRuntime, a: ScenarioRuntime, batch: BatchId, now: u64,
    allow_fallback: Option<bool>, r: Result<()>) -> bool {
    exists|rs: Result<SettlementReceipt>|
        #[trigger] settle_selected_outcome(b.settlement.config, b.risk.config, batch, now,
            flag(allow_fallback), b.routes, b.accounts, a.accounts, b.operators, a.operators,
            b.auction, a.auction, b.batches, a.batches, b.events.events@, a.events.events@, rs)
        && fixed_parts(b, a) && same_assets(b, a) && same_routes(b, a) && a.snapshots@ == b.snapshots@
        && if rs is Err {
            r == Err::<(), EclipseError>(rs->Err_0) && a.receipts@ == b.receipts@
        } else {
            r is Ok && a.receipts@ == b.receipts@.push(rs->Ok_0)
        }
}

/// `s` shows the books of `rt` under the name `name`.
pub open spec fn snapshot_of(s: NamedSnapshot, name: Seq<char>, rt: ScenarioRuntime) -> bool {
    &&& s.name@ == name
    &&& s.accounts@.len() == rt.accounts.entries().len()
    &&& forall|i: int| 0 <= i < s.accounts@.len() ==> (#[trigger] s.accounts@[i]).describes(rt.accounts.entries()[i])
    &&& s.operators@.len() == rt.operators.entries().len()
    &&& forall|i: int| 0 <= i < s.operators@.len() ==> (#[trigger] s.operators@[i]).describes(rt.operators.entries()[i])
    &&& s.batches@.len() == rt.batches.entries().len()
    &&& forall|i: int| 0 <= i < s.batches@.len() ==> (#[trigger] s.batches@[i]).describes(rt.batches.entries()[i])
    &&& s.bids@.len() == rt.auction.entries().len()
    &&& forall|i: int| 0 <= i < s.bids@.len() ==> (#[trigger] s.bids@[i]).describes(rt.auction.entries()[i])
}

pub open spec fn snapshot_outcome(b: ScenarioRuntime, a: ScenarioRuntime, name: String, r: Result<()>) -> bool {
    &&& r is Ok && fixed_parts(b, a)
    &&& same_assets(b, a) && same_accounts(b, a) && same_operators(b, a) && same_routes(b, a) && same_auction(b, a)
    &&& same_batches(b, a) && a.receipts@ == b.receipts@
    &&& a.events.events@ == b.events.events@.push(Event::Snapshot { name })
    &&& a.snapshots@.len() == b.snapshots@.len() + 1 && a.snapshots@.drop_last() == b.snapshots@
    &&& snapshot_of(a.snapshots@.last(), name@, b)
}

/// What a step does to the runtime, with its result.
pub open spec fn action_outcome(b: ScenarioRuntime, a: ScenarioRuntime, action: ScenarioAction, r: Result<()>) -> bool {
    match action {
        ScenarioAction::RegisterAsset { id, symbol, decimals, class, transfer_fee_bps, risk_weight_bps } =>
            register_asset_outcome(b, a, id, symbol, decimals, class, transfer_fee_bps, risk_weight_bps, r),
        ScenarioAction::CreateAccount { id, role, label } => create_account_outcome(b, a, id, role, label, r),
        ScenarioAction::Deposit { account, asset, amount } => deposit_outcome(b, a, account, asset, amount, r),
        ScenarioAction::Transfer { from, to, asset, amount } => transfer_step_outcome(b, a, from, to, asset, amount, r),
        ScenarioAction::RegisterOperator { id, display_name, lane, fee_account, reliability_bps, fee_floor_bps } =>
            register_operator_outcome(b, a, id, display_name, lane, fee_account, reliability_bps, fee_floor_bps, r),
        ScenarioAction::PledgeGuarantee { operator, amount } => pledge_outcome(b, a, operator, amount, r),
        ScenarioAction::SetOperatorStatus { operator, status } => set_status_outcome(b, a, operator, status, r),
        ScenarioAction::AllocateCommitment { operator, amount, label } => commitment_outcome(b, a, operator, amount, label, r),
        ScenarioAction::RegisterRoute { id, label, class, source, target, price_numerator, price_denominator,
            max_slippage_bps, min_input, max_input, guarantee_bps_floor, liquidity_floor, fallback_rank, venue } =>
            register_route_outcome(b, a, id, label, class, source, target, price_numerator, price_denominator,
                max_slippage_bps, min_input, max_input, guarantee_bps_floor, liquidity_floor, fallback_rank, venue, r),
        ScenarioAction::OpenBatch { id, payer, recipient, source, target, amount_in, min_out, opened_at, deadline,
            allow_fallback, memo } =>
            open_batch_outcome(b, a, id, payer, recipient, source, target, amount_in, min_out, opened_at, deadline,
                allow_fallback, memo, r),
        ScenarioAction::SubmitBid { id, batch, route, operator, price_numerator, price_denominator, fee_bps, guarantee_bps,
            received_at, expires_at, lane, quote_ref } =>
            submit_bid_outcome(b, a, id, batch, route, operator, price_numerator, price_denominator, fee_bps,
                guarantee_bps, received_at, expires_at, lane, quote_ref, r),
        ScenarioAction::SelectWinner { batch, now } => select_winner_step_outcome(b, a, batch, now, r),
        ScenarioAction::SettleBatch { batch, now, allow_fallback } => settle_batch_outcome(b, a, batch, now, allow_fallback, r),
        ScenarioAction::Snapshot { name } => snapshot_outcome(b, a, name, r),
    }
}

impl ScenarioRuntime {
    /// An empty runtime that settles through `vault_account` under the default limits.
    pub fn new(name: &str, vault_account: AccountId) -> (r: ScenarioRuntime)
        ensures
            initial_runtime(r, name@, vault_account),
    {
        let risk = RiskEngine::new(RiskConfig::with_vault(vault_account.clone()));
        let settlement = SettlementEngine::new(SettlementConfig::with_vault(vault_account));
        ScenarioRuntime {
            name: name.to_owned(),
            assets: AssetBook::new(),
            accounts: AccountBook::new(),
            operators: OperatorBook::new(),
            routes: RouteBook::new(),
            auction: AuctionBook::new(),
            batches: BatchBook::new(),
            risk,
            settlement,
            events: EventLog::new(),
            receipts: Vec::new(),
            snapshots: Vec::new(),
        }
    }

    fn register_asset(&mut self, id: AssetId, symbol: String, decimals: u8, class: AssetClass,
        transfer_fee_bps: Option<u32>, risk_weight_bps: Option<u32>) -> (r: Result<()>)
        requires
            runtime_wf(*old(self)),
        ensures
            register_asset_outcome(*old(self), *final(self), id, symbol, decimals, class, transfer_fee_bps, risk_weight_bps, r),
    {
        let mut asset = Asset::new(id.clone(), symbol.as_str(), decimals, class);
        if let Some(fee) = transfer_fee_bps {
            asset = asset.with_transfer_fee(BasisPoints::new(fee)?);
        }
        if let Some(weight) = risk_weight_bps {
            asset = asset.with_risk_weight(BasisPoints::new(weight)?);
        }
        self.assets.insert(asset)?;
        self.events.push(Event::AssetRegistered { asset: id, symbol });
        Ok(())
    }

    fn create_account(&mut self, id: AccountId, role: AccountRole, label: Option<String>) -> (r: Result<()>)
        requires
            runtime_wf(*old(self)),
        ensures
            create_account_outcome(*old(self), *final(self), id, role, label, r),
    {
        let text = match label {
            Some(l) => l,
            None => id.0.clone(),
        };
        self.accounts.create(id.clone(), role, text.as_str())?;
        let mut name = String::new();
        push_str(&mut name, role.as_str());
        proof { assert(name@ =~= role_name(role)); }
        self.events.push(Event::AccountCreated { account: id, role: name });
        proof { assert(self.events.events@.drop_last() =~= old(self).events.events@); }
        Ok(())
    }

    fn deposit(&mut self, account: AccountId, asset: AssetId, amount: u64) -> (r: Result<()>)
        requires
            runtime_wf(*old(self)),
        ensures
            deposit_outcome(*old(self), *final(self), account, asset, amount, r),
    {
        self.assets.ensure_enabled(&asset)?;
        self.accounts.deposit(&account, asset.clone(), Amount(amount as u128))?;
        self.events.push(Event::Deposit { account, asset, amount: amount as u128 });
        Ok(())
    }

    fn transfer(&mut self, from: AccountId, to: AccountId, asset: AssetId, amount: u64) -> (r: Result<()>)
        requires
            runtime_wf(*old(self)),
        ensures
            transfer_step_outcome(*old(self), *final(self), from, to, asset, amount, r),
    {
        self.assets.ensure_enabled(&asset)?;
        self.accounts.transfer(&from, &to, &asset, Amount(amount as u128))?;
        self.events.push(Event::Withdrawal { account: from, asset: asset.clone(), amount: amount as u128 });
        self.events.push(Event::Deposit { account: to, asset, amount: amount as u128 });
        Ok(())
    }

    fn register_operator(&mut self, id: OperatorId, display_name: String, lane: String, fee_account: AccountId,
        reliability_bps: Option<u32>, fee_floor_bps: Option<u32>) -> (r: Result<()>)
        requires
            runtime_wf(*old(self)),
        ensures
            register_operator_outcome(*old(self), *final(self), id, display_name, lane, fee_account, reliability_bps,
                fee_floor_bps, r),
    {
        self.accounts.ensure(&fee_account)?;
        let mut operator = OperatorProfile::new(id.clone(), display_name.as_str(), lane.as_str(), fee_account);
        if let Some(reliability) = reliability_bps {
            operator.reliability_bps = BasisPoints::new(reliability)?;
        }
        if let Some(floor) = fee_floor_bps {
            operator.fee_floor_bps = BasisPoints::new(floor)?;
        }
        self.operators.insert(operator)?;
        self.events.push(Event::OperatorRegistered { operator: id, lane });
        Ok(())
    }

    fn pledge(&mut self, operator: OperatorId, amount: u64) -> (r: Result<()>)
        requires
            runtime_wf(*old(self)),
        ensures
            pledge_outcome(*old(self), *final(self), operator, amount, r),
    {
        self.operators.pledge(&operator, Amount(amount as u128))?;
        self.events.push(Event::GuaranteePledged { operator, amount: amount as u128 });
        Ok(())
    }

    fn allocate_commitment(&mut self, operator: OperatorId, amount: u64, label: Option<String>) -> (r: Result<()>)
        requires
            runtime_wf(*old(self)),
        ensures
            commitment_outcome(*old(self), *final(self), operator, amount, label, r),
    {
        self.operators.allocate_external_commitment(&operator, Amount(amount as u128))?;
        let text = match label {
            Some(l) => l,
            None => {
                let mut t = String::new();
                push_str(&mut t, "portfolio");
                proof { assert(t@ =~= "portfolio"@); }
                t
            },
        };
        self.events.push(Event::OperatorCommitment {
            operator,
            route: RouteId::new("external"),
            amount: amount as u128,
            label: text,
        });
        proof { assert(self.events.events@.drop_last() =~= old(self).events.events@); }
        Ok(())
    }

    fn register_route(&mut self, id: RouteId, label: String, class: RouteClass, source: AssetId, target: AssetId,
        price_numerator: u64, price_denominator: u64, max_slippage_bps: Option<u32>, min_input: Option<u64>,
        max_input: Option<u64>, guarantee_bps_floor: Option<u32>, liquidity_floor: Option<u64>, fallback_rank: Option<u32>,
        venue: Option<String>) -> (r: Result<()>)
        requires
            runtime_wf(*old(self)),
        ensures
            register_route_outcome(*old(self), *final(self), id, label, class, source, target, price_numerator,
                price_denominator, max_slippage_bps, min_input, max_input, guarantee_bps_floor, liquidity_floor,
                fallback_rank, venue, r),
    {
        self.assets.ensure_enabled(&source)?;
        self.assets.ensure_enabled(&target)?;
        let price = Ratio::new(price_numerator as u128, price_denominator as u128)?;
        let slippage = BasisPoints::new(match max_slippage_bps {
            Some(v) => v,
            None => 50,
        })?;
        let venue_name = match venue {
            Some(v) => v,
            None => {
                let mut t = String::new();
                push_str(&mut t, "internal");
                proof { assert(t@ =~= "internal"@); }
                t
            },
        };
        let leg = RouteLeg::new(source.clone(), target.clone(), price, slippage, venue_name.as_str());
        let floor = BasisPoints::new(match guarantee_bps_floor {
            Some(v) => v,
            None => 0,
        })?;
        let mut route = RoutePlan::new(id.clone(), label.as_str(), class, source.clone(), target.clone())
            .with_leg(leg)
            .with_limits(
                Amount(match min_input {
                    Some(v) => v as u128,
                    None => 1,
                }),
                Amount(match max_input {
                    Some(v) => v as u128,
                    None => POLICY_CEILING,
                }),
            )
            .with_guarantee_floor(floor)
            .with_liquidity_floor(Amount(match liquidity_floor {
                Some(v) => v as u128,
                None => 0,
            }));
        if let Some(rank) = fallback_rank {
            route = route.with_fallback_rank(rank);
        }
        self.routes.insert(route)?;
        self.events.push(Event::RouteRegistered { route: id, source, target });
        Ok(())
    }

    fn open_batch(&mut self, id: BatchId, payer: AccountId, recipient: AccountId, source: AssetId, target: AssetId,
        amount_in: u64, min_out: u64, opened_at: u64, deadline: u64, allow_fallback: Option<bool>, memo: Option<String>)
        -> (r: Result<()>)
        requires
            runtime_wf(*old(self)),
        ensures
            open_batch_outcome(*old(self), *final(self), id, payer, recipient, source, target, amount_in, min_out, opened_at,
                deadline, allow_fallback, memo, r),
    {
        self.accounts.ensure(&payer)?;
        self.accounts.ensure(&recipient)?;
        self.assets.ensure_enabled(&source)?;
        self.assets.ensure_enabled(&target)?;
        let memo_text = match memo {
            Some(m) => m,
            None => String::new(),
        };
        let order = BatchOrder::new(
            id.clone(),
            payer,
            recipient,
            source.clone(),
            target.clone(),
            Amount(amount_in as u128),
            Amount(min_out as u128),
            opened_at,
            deadline,
        ).with_fallback(match allow_fallback {
            Some(f) => f,
            None => false,
        }).with_memo(memo_text.as_str());
        self.batches.insert(order)?;
        self.events.push(Event::BatchOpened {
            batch: id,
            source,
            target,
            amount_in: amount_in as u128,
            min_out: min_out as u128,
        });
        Ok(())
    }

    fn submit_bid(&mut self, id: BidId, batch: BatchId, route: RouteId, operator: OperatorId, price_numerator: u64,
        price_denominator: u64, fee_bps: u32, guarantee_bps: u32, received_at: u64, expires_at: u64, lane: Option<String>,
        quote_ref: Option<String>) -> (r: Result<()>)
        requires
            runtime_wf(*old(self)),
        ensures
            submit_bid_outcome(*old(self), *final(self), id, batch, route, operator, price_numerator, price_denominator,
                fee_bps, guarantee_bps, received_at, expires_at, lane, quote_ref, r),
    {
        let order = self.batches.order(&batch)?.clone();
        let price = Ratio::new(price_numerator as u128, price_denominator as u128)?;
        let fee = BasisPoints::new(fee_bps)?;
        let guarantee = BasisPoints::new(guarantee_bps)?;
        let request = BidRequest {
            id: id.clone(),
            batch: batch.clone(),
            route: route.clone(),
            operator: operator.clone(),
            amount_in: order.amount_in,
            price,
            fee_bps: fee,
            guarantee_bps: guarantee,
            received_at,
            expires_at,
            metadata: BidMetadata {
                lane: match lane {
                    Some(l) => l,
                    None => String::new(),
                },
                client_tag: self.name.clone(),
                quote_ref: match quote_ref {
                    Some(q) => q,
                    None => String::new(),
                },
            },
        };
        let ghost req = request;
        proof {
            assert(scenario_request(req, id, batch, route, operator, old(self).batches.map()[batch@].order, price_numerator,
                price_denominator, fee_bps, guarantee_bps, received_at, expires_at, lane, quote_ref, old(self).name@));
        }
        let mut fits = true;
        if self.auction.get(&request.id).is_err() {
            let assessed = self.risk.assess_bid(&request.batch, &request.route, &request.operator, request.amount_in,
                request.price, request.fee_bps, request.guarantee_bps, received_at, &self.assets, &self.accounts,
                &self.operators, &self.routes);
            if let Ok(a) = assessed {
                if let Ok(plan) = self.routes.get(&request.route) {
                    fits = score_fits_exec(Amount(a.snapshot.projected_net_out), request.guarantee_bps,
                        request.fee_bps, plan.class.base_priority(), a.score_penalty);
                    proof {
                        if !fits {
                            assert(crate::risk::assess_bid_outcome(self.risk.config, req.batch, req.route, req.operator,
                                req.amount_in, req.price, req.fee_bps, req.guarantee_bps, received_at, self.assets,
                                self.accounts, self.operators, self.routes, Ok::<crate::risk::RiskAssessment, EclipseError>(a)));
                            assert(!score_in_range(self.auction, req, received_at, self.assets, self.accounts,
                                self.operators, self.routes, self.risk.config));
                        }
                    }
                }
            }
        }
        if !fits {
            return Err(EclipseError::AmountOverflow);
        }
        let ghost auc0 = self.auction;
        let rt = self.auction.submit(request, received_at, &self.assets, &self.accounts, &self.operators, &self.routes,
            &self.risk);
        proof {
            assert(submit_outcome(auc0, self.auction, req, received_at, self.assets, self.accounts, self.operators,
                self.routes, self.risk.config, rt));
        }
        let ticket = match rt {
            Ok(t) => t,
            Err(e) => return Err(e),
        };
        self.events.push(Event::BidSubmitted {
            bid: id,
            batch,
            route,
            operator,
            expected_net: ticket.net_out().raw(),
        });
        proof {
            assert(rt == Ok::<crate::auction::BidTicket, EclipseError>(ticket));
            assert(fixed_parts(*old(self), *self));
            assert(same_records(*old(self), *self));
            assert(self.events.events@ == old(self).events.events@.push(Event::BidSubmitted {
                bid: id,
                batch,
                route,
                operator,
                expected_net: rt->Ok_0.assessment.snapshot.projected_net_out,
            }));
            assert(submit_outcome(old(self).auction, self.auction, req, received_at, old(self).assets, old(self).accounts,
                old(self).operators, old(self).routes, old(self).risk.config, rt));
        }
        Ok(())
    }

    fn select_winner(&mut self, batch: BatchId, now: u64) -> (r: Result<()>)
        requires
            runtime_wf(*old(self)),
        ensures
            select_winner_step_outcome(*old(self), *final(self), batch, now, r),
    {
        let ghost auc0 = self.auction;
        let rw = self.auction.select_winner(&batch, now);
        let ghost auc1 = self.auction;
        proof { assert(select_winner_outcome(auc0, auc1, batch, now, rw)); }
        let winner = match rw {
            Ok(w) => w,
            Err(e) => {
                return Err(e);
            },
        };
        let ghost bat0 = self.batches;
        let rs = self.batches.select(&batch, &winner);
        proof { assert(batch_select_outcome(bat0, self.batches, batch, winner, rs)); }
        if let Err(e) = rs {
            return Err(e);
        }
        let ghost bat1 = self.batches;
        self.events.push(Event::BidSelected {
            batch,
            bid: winner.request.id.clone(),
            operator: winner.request.operator.clone(),
            score: winner.score.final_score,
        });
        proof {
            assert(rw == Ok::<crate::auction::BidTicket, EclipseError>(winner));
            assert(batch_select_outcome(old(self).batches, self.batches, batch, winner, rs));
            assert(self.auction.map() == auc1.map());
            assert(fixed_parts(*old(self), *self));
            assert(same_records(*old(self), *self));
        }
        Ok(())
    }

    fn settle_batch(&mut self, batch: BatchId, now: u64, allow_fallback: Option<bool>) -> (r: Result<()>)
        requires
            runtime_wf(*old(self)),
        ensures
            settle_batch_outcome(*old(self), *final(self), batch, now, allow_fallback, r),
    {
        let fallback = match allow_fallback {
            Some(f) => f,
            None => false,
        };
        proof { assert(fallback == flag(allow_fallback)); }
        let rs = self.settlement.settle_selected(
            &batch,
            now,
            fallback,
            &mut self.accounts,
            &mut self.operators,
            &self.routes,
            &mut self.auction,
            &mut self.batches,
            &self.risk,
            &mut self.events,
        );
        proof {
            assert(settle_selected_outcome(old(self).settlement.config, old(self).risk.config, batch, now,
                flag(allow_fallback), old(self).routes, old(self).accounts, self.accounts, old(self).operators,
                self.operators, old(self).auction, self.auction, old(self).batches, self.batches,
                old(self).events.events@, self.events.events@, rs));
        }
        let receipt = match rs {
            Ok(x) => x,
            Err(e) => return Err(e),
        };
        self.receipts.push(receipt);
        proof {
            assert(rs == Ok::<SettlementReceipt, EclipseError>(receipt));
            assert(fixed_parts(*old(self), *self));
            assert(self.receipts@ == old(self).receipts@.push(rs->Ok_0));
            assert(settle_selected_outcome(old(self).settlement.config, old(self).risk.config, batch, now,
                flag(allow_fallback), old(self).routes, old(self).accounts, self.accounts, old(self).operators,
                self.operators, old(self).auction, self.auction, old(self).batches, self.batches,
                old(self).events.events@, self.events.events@, rs));
        }
        Ok(())
    }

    fn snapshot(&mut self, name: String) -> (r: Result<()>)
        requires
            runtime_wf(*old(self)),
        ensures
            snapshot_outcome(*old(self), *final(self), name, r),
    {
        self.events.push(Event::Snapshot { name: name.clone() });
        let shot = NamedSnapshot {
            name,
            accounts: self.accounts.views(),
            operators: self.operators.views(),
            batches: self.batches.views(),
            bids: self.auction.views(),
        };
        self.snapshots.push(shot);
        proof { assert(self.snapshots@.drop_last() =~= old(self).snapshots@); }
        Ok(())
    }

    /// Runs one step of a scenario.
    pub fn apply(&mut self, action: ScenarioAction) -> (r: Result<()>)
        requires
            runtime_wf(*old(self)),
        ensures
            action_outcome(*old(self), *final(self), action, r),
    {
        match action {
            ScenarioAction::RegisterAsset { id, symbol, decimals, class, transfer_fee_bps, risk_weight_bps } =>
                self.register_asset(id, symbol, decimals, class, transfer_fee_bps, risk_weight_bps),
            ScenarioAction::CreateAccount { id, role, label } => self.create_account(id, role, label),
            ScenarioAction::Deposit { account, asset, amount } => self.deposit(account, asset, amount),
            ScenarioAction::Transfer { from, to, asset, amount } => self.transfer(from, to, asset, amount),
            ScenarioAction::RegisterOperator { id, display_name, lane, fee_account, reliability_bps, fee_floor_bps } =>
                self.register_operator(id, display_name, lane, fee_account, reliability_bps, fee_floor_bps),
            ScenarioAction::PledgeGuarantee { operator, amount } => self.pledge(operator, amount),
            ScenarioAction::SetOperatorStatus { operator, status } => self.operators.set_status(&operator, status),
            ScenarioAction::AllocateCommitment { operator, amount, label } => self.allocate_commitment(operator, amount, label),
            ScenarioAction::RegisterRoute { id, label, class, source, target, price_numerator, price_denominator,
                max_slippage_bps, min_input, max_input, guarantee_bps_floor, liquidity_floor, fallback_rank, venue } =>
                self.register_route(id, label, class, source, target, price_numerator, price_denominator,
                    max_slippage_bps, min_input, max_input, guarantee_bps_floor, liquidity_floor, fallback_rank, venue),
            ScenarioAction::OpenBatch { id, payer, recipient, source, target, amount_in, min_out, opened_at, deadline,
                allow_fallback, memo } =>
                self.open_batch(id, payer, recipient, source, target, amount_in, min_out, opened_at, deadline,
                    allow_fallback, memo),
            ScenarioAction::SubmitBid { id, batch, route, operator, price_numerator, price_denominator, fee_bps,
                guarantee_bps, received_at, expires_at, lane, quote_ref } =>
                self.submit_bid(id, batch, route, operator, price_numerator, price_denominator, fee_bps, guarantee_bps,
                    received_at, expires_at, lane, quote_ref),
            ScenarioAction::SelectWinner { batch, now } => self.select_winner(batch, now),
            ScenarioAction::SettleBatch { batch, now, allow_fallback } => self.settle_batch(batch, now, allow_fallback),
            ScenarioAction::Snapshot { name } => self.snapshot(name),
        }
    }

    /// The events, current views, receipts and snapshots of the run.
    pub fn report(&self) -> (r: ScenarioReport)
        ensures
            report_of(r, *self),
    {
        let mut snapshots: Vec<NamedSnapshot> = Vec::new();
        let mut i: usize = 0;
        while i < self.snapshots.len()
            invariant
                i <= self.snapshots@.len(),
                snapshots@.len() == i,
                forall|j: int| 0 <= j < i ==> (#[trigger] snapshots@[j]).copies(self.snapshots@[j]),
            decreases self.snapshots@.len() - i,
        {
            snapshots.push(self.snapshots[i].clone());
            i = i + 1;
        }
        ScenarioReport {
            name: self.name.clone(),
            events: self.events.to_vec(),
            accounts: self.accounts.views(),
            operators: self.operators.views(),
            routes: self.routes.views(),
            batches: self.batches.views(),
            bids: self.auction.views(),
            receipts: copy_all(&self.receipts),
            snapshots,
        }
    }
}

/// `rep` reports the run that ended at `rt`.
pub open spec fn report_of(rep: ScenarioReport, rt: ScenarioRuntime) -> bool {
    &&& rep.name == rt.name
    &&& rep.events@ == rt.events.events@
    &&& rep.accounts@.len() == rt.accounts.entries().len()
    &&& forall|i: int| 0 <= i < rep.accounts@.len() ==> (#[trigger] rep.accounts@[i]).describes(rt.accounts.entries()[i])
    &&& rep.operators@.len() == rt.operators.entries().len()
    &&& forall|i: int| 0 <= i < rep.operators@.len() ==> (#[trigger] rep.operators@[i]).describes(rt.operators.entries()[i])
    &&& rep.routes@.len() == rt.routes.entries().len()
    &&& forall|i: int| 0 <= i < rep.routes@.len() ==> (#[trigger] rep.routes@[i]).describes(rt.routes.entries()[i])
    &&& rep.batches@.len() == rt.batches.entries().len()
    &&& forall|i: int| 0 <= i < rep.batches@.len() ==> (#[trigger] rep.batches@[i]).describes(rt.batches.entries()[i])
    &&& rep.bids@.len() == rt.auction.entries().len()
    &&& forall|i: int| 0 <= i < rep.bids@.len() ==> (#[trigger] rep.bids@[i]).describes(rt.auction.entries()[i])
    &&& rep.receipts@ == rt.receipts@
    &&& rep.snapshots@.len() == rt.snapshots@.len()
    &&& forall|i: int| 0 <= i < rep.snapshots@.len() ==> (#[trigger] rep.snapshots@[i]).copies(rt.snapshots@[i])
}

/// The vault a scenario names, or an account called `vault`.
pub open spec fn vault_of(input: ScenarioFile, vault: AccountId) -> bool {
    if input.vault_account is Some { vault == input.vault_account->Some_0 } else { vault@ == "vault"@ }
}

/// The first `k` steps succeeded, each taking `states[i]` to `states[i + 1]`.
pub open spec fn steps_ok(states: Seq<ScenarioRuntime>, actions: Seq<ScenarioAction>, k: int) -> bool {
    forall|i: int| 0 <= i < k ==> #[trigger] action_outcome(states[i], states[i + 1], actions[i], Ok::<(), EclipseError>(()))
}

/// What running a scenario gives: the report of the final state when every step succeeds, or the
/// error of the first step that fails, the steps before it having succeeded.
pub open spec fn run_outcome(input: ScenarioFile, r: Result<ScenarioReport>) -> bool {
    let actions = input.actions@;
    exists|states: Seq<ScenarioRuntime>, vault: AccountId|
        vault_of(input, vault) && states.len() >= 1 && #[trigger] initial_runtime(states[0], input.name@, vault)
        && if r is Ok {
            &&& states.len() == actions.len() + 1
            &&& steps_ok(states, actions, actions.len() as int)
            &&& report_of(r->Ok_0, states.last())
        } else {
            &&& 2 <= states.len() <= actions.len() + 1
            &&& steps_ok(states, actions, states.len() - 2)
            &&& action_outcome(states[states.len() - 2], states[states.len() - 1], actions[states.len() - 2],
                Err::<(), EclipseError>(r->Err_0))
        }
}

/// Runs every step of a scenario in order, stopping at the first failure, and reports the result.
pub fn run_scenario(input: ScenarioFile) -> (r: Result<ScenarioReport>)
    ensures
        run_outcome(input, r),
{
    let ghost inp = input;
    let vault = match input.vault_account {
        Some(v) => v,
        None => AccountId::new("vault"),
    };
    let ghost v = vault;
    let mut runtime = ScenarioRuntime::new(input.name.as_str(), vault);
    let ghost mut states: Seq<ScenarioRuntime> = seq![runtime];
    let mut actions = input.actions;
    let ghost all = actions@;
    let total = actions.len();
    let mut i: usize = 0;
    while actions.len() > 0
        invariant
            inp == input,
            all == inp.actions@,
            all.len() == total,
            vault_of(inp, v),
            i <= all.len(),
            actions@ == all.skip(i as int),
            states.len() == i + 1,
            states[0].name@ == inp.name@,
            initial_runtime(states[0], inp.name@, v),
            states.last() == runtime,
            runtime_wf(runtime),
            steps_ok(states, all, i as int),
        decreases actions@.len(),
    {
        let action = actions.remove(0);
        proof { assert(all.skip(i as int).remove(0) =~= all.skip(i + 1)); }
        let ghost before = runtime;
        let r = runtime.apply(action);
        proof {
            let old_states = states;
            states = states.push(runtime);
            assert(states[i as int] == before);
            assert(action == all[i as int]);
            assert forall|k: int| 0 <= k < i implies #[trigger] action_outcome(states[k], states[k + 1], all[k],
                Ok::<(), EclipseError>(())) by {
                assert(states[k] == old_states[k]);
                assert(states[k + 1] == old_states[k + 1]);
            }
        }
        if let Err(e) = r {
            proof {
                assert(vault_of(inp, v));
                assert(i < all.len());
                assert(steps_ok(states, all, i as int));
                assert(initial_runtime(states[0], inp.name@, v));
                assert(action_outcome(states[states.len() - 2], states[states.len() - 1], all[states.len() - 2],
                    Err::<(), EclipseError>(e)));
            }
            return Err(e);
        }
        proof {
            assert(action_outcome(states[i as int], states[i + 1], all[i as int], Ok::<(), EclipseError>(())));
            assert(runtime_wf(runtime)) by {
                crate::scenario::lemma_outcome_keeps_wf(before, runtime, action, r);
            }
        }
        i = i + 1;
    }
    proof { assert(initial_runtime(states[0], inp.name@, v)); }
    Ok(runtime.report())
}

/// Every step leaves the books well formed.
pub proof fn lemma_outcome_keeps_wf(b: ScenarioRuntime, a: ScenarioRuntime, action: ScenarioAction, r: Result<()>)
    requires
        runtime_wf(b),
        action_outcome(b, a, action, r),
    ensures
        runtime_wf(a),
{
}

/// The runtime a scenario starts from.
pub open spec fn initial_runtime(rt: ScenarioRuntime, name: Seq<char>, vault: AccountId) -> bool {
    &&& rt.name@ == name
    &&& runtime_wf(rt)
    &&& rt.assets.map() == Map::<Seq<char>, Asset>::empty()
    &&& rt.accounts.entries().len() == 0
    &&& rt.operators.entries().len() == 0
    &&& rt.routes.entries().len() == 0
    &&& rt.auction.entries().len() == 0
    &&& rt.batches.entries().len() == 0
    &&& rt.risk.config == RiskConfig::with_vault_spec(vault)
    &&& rt.settlement.config == (SettlementConfig { vault_account: vault, treasury_account: None, insurance_account: None,
        emit_balance_events: true })
    &&& rt.events.events@.len() == 0 && rt.receipts@.len() == 0 && rt.snapshots@.len() == 0
}

} // verus!
