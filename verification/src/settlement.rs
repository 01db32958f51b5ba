use crate::accounts::{lemma_transfer_agrees, lemma_transfer_totals, same_balances, sum_available, transfer_outcome, AccountBook, AccountState};
use crate::amount::{breakdown_with_fee, floor_muldiv, mul_div_floor_result, Amount, AmountBreakdown, U128_MAX};
use crate::auction::{is_fallback, AuctionBook, BidStatus, BidTicket};
use crate::batch::{BatchBook, BatchOrder, BatchRecord, BatchStatus, batch_terminal};
use crate::error::{error_message, EclipseError, Result};
use crate::events::{Event, EventLog};
use crate::ids::{AccountId, AssetId, BatchId, BidId, OperatorId, RouteId, SettlementKey};
use crate::operators::{GuaranteeAttachment, OperatorBook, OperatorProfile};
use crate::risk::{preflight_result, RiskConfig, RiskEngine};
use crate::routes::{RouteBook, RoutePlan};
use crate::text::push_str;
use vstd::prelude::*;

verus! {

/// Where a settlement moves funds.
#[derive(Clone, Debug, PartialEq, Eq)]
pub struct SettlementConfig {
    pub vault_account: AccountId,
    pub treasury_account: Option<AccountId>,
    pub insurance_account: Option<AccountId>,
    pub emit_balance_events: bool,
}

impl SettlementConfig {
    /// A configuration that settles through `vault_account`, without treasury or insurance.
    pub fn with_vault(vault_account: AccountId) -> (r: SettlementConfig)
        ensures
            r == (SettlementConfig {
                vault_account,
                treasury_account: None,
                insurance_account: None,
                emit_balance_events: true,
            }),
    {
        SettlementConfig { vault_account, treasury_account: None, insurance_account: None, emit_balance_events: true }
    }
}

impl Default for SettlementConfig {
    fn default() -> (r: SettlementConfig)
        ensures
            r.vault_account@ == "vault"@,
            r.treasury_account is None,
            r.insurance_account is None,
            r.emit_balance_events,
    {
        SettlementConfig::with_vault(AccountId::new("vault"))
    }
}

/// The record of one settlement.
#[derive(Debug, PartialEq, Eq)]
pub struct SettlementReceipt {
    pub key: SettlementKey,
    pub operator: OperatorId,
    pub payer: AccountId,
    pub recipient: AccountId,
    pub source: AssetId,
    pub target: AssetId,
    pub amount_in: u128,
    pub gross_out: u128,
    pub net_out: u128,
    pub operator_fee: u128,
    pub required_guarantee: u128,
    pub attached_guarantee: u128,
    pub fallback: bool,
}

impl Clone for SettlementReceipt {
    fn clone(&self) -> (r: Self)
        ensures
            r == *self,
    {
        SettlementReceipt {
            key: self.key.clone(),
            operator: self.operator.clone(),
            payer: self.payer.clone(),
            recipient: self.recipient.clone(),
            source: self.source.clone(),
            target: self.target.clone(),
            amount_in: self.amount_in,
            gross_out: self.gross_out,
            net_out: self.net_out,
            operator_fee: self.operator_fee,
            required_guarantee: self.required_guarantee,
            attached_guarantee: self.attached_guarantee,
            fallback: self.fallback,
        }
    }
}

impl SettlementReceipt {
    /// The attached guarantee less the required one.
    pub fn guarantee_gap(&self) -> (r: i128)
        requires
            i128::MIN <= crate::risk::signed_gap(self.attached_guarantee, self.required_guarantee) <= i128::MAX,
        ensures
            r == crate::risk::signed_gap(self.attached_guarantee, self.required_guarantee),
            self.attached_guarantee <= i128::MAX && self.required_guarantee <= i128::MAX
                ==> r == self.attached_guarantee - self.required_guarantee,
    {
        self.attached_guarantee as i128 - self.required_guarantee as i128
    }

    /// Something reached the recipient and no more than the gross output.
    pub fn is_complete(&self) -> (r: bool)
        ensures
            r == (self.net_out > 0 && self.gross_out >= self.net_out),
    {
        self.net_out > 0 && self.gross_out >= self.net_out
    }
}

/// The account that collects an operator's fees.
pub open spec fn fee_account_name(operator: Seq<char>) -> Seq<char> {
    "fee-"@ + operator
}

/// Gross, fee and net of a ticket's settlement, recomputed from its request.
pub open spec fn ticket_breakdown(ticket: BidTicket) -> Result<AmountBreakdown> {
    let gross = mul_div_floor_result(ticket.request.amount_in, ticket.request.price.numerator, ticket.request.price.denominator);
    if gross is Err {
        Err(gross->Err_0)
    } else if gross->Ok_0.0 * ticket.request.fee_bps.0 > U128_MAX {
        Err(EclipseError::AmountOverflow)
    } else {
        breakdown_with_fee(gross->Ok_0, Amount(floor_muldiv(gross->Ok_0.0, ticket.request.fee_bps.0 as u128, 10_000) as u128))
    }
}

/// The three transfers of a settlement, each after the previous one succeeded: the payer's input
/// into the vault, the net output to the recipient, and a fee that is not zero to the operator's
/// fee account.
pub open spec fn settlement_transfers(config: SettlementConfig, order: BatchOrder, route: RoutePlan, ticket: BidTicket,
    b: AmountBreakdown, before: Map<Seq<char>, AccountState>, after: Map<Seq<char>, AccountState>, r: Result<()>) -> bool {
    exists|m1: Map<Seq<char>, AccountState>, r1: Result<()>|
        #[trigger] transfer_outcome(before, m1, order.payer, config.vault_account, order.source, order.amount_in, r1)
        && second_transfers(config, order, route, ticket, b, m1, after, r1, r)
}

/// After the payer's transfer with result `r1`: the payout to the recipient and the fee.
pub open spec fn second_transfers(config: SettlementConfig, order: BatchOrder, route: RoutePlan, ticket: BidTicket,
    b: AmountBreakdown, m1: Map<Seq<char>, AccountState>, after: Map<Seq<char>, AccountState>, r1: Result<()>,
    r: Result<()>) -> bool {
    if r1 is Err {
        r == r1 && after == m1
    } else {
        exists|m2: Map<Seq<char>, AccountState>, r2: Result<()>|
            #[trigger] transfer_outcome(m1, m2, config.vault_account, order.recipient, route.target, b.net, r2)
            && fee_transfer(config, route, ticket, b, m2, after, r2, r)
    }
}

/// After the payout with result `r2`: the fee to the operator's fee account, when there is one.
pub open spec fn fee_transfer(config: SettlementConfig, route: RoutePlan, ticket: BidTicket, b: AmountBreakdown,
    m2: Map<Seq<char>, AccountState>, after: Map<Seq<char>, AccountState>, r2: Result<()>, r: Result<()>) -> bool {
    if r2 is Err {
        r == r2 && after == m2
    } else if b.fee.0 == 0 {
        r is Ok && after == m2
    } else {
        exists|fee_account: AccountId| fee_account@ == fee_account_name(ticket.request.operator@)
            && #[trigger] transfer_outcome(m2, after, config.vault_account, fee_account, route.target, b.fee, r)
    }
}

/// The receipt of a settlement from its parts.
pub open spec fn receipt_spec(order: BatchOrder, route: RoutePlan, ticket: BidTicket, b: AmountBreakdown,
    attachment: GuaranteeAttachment, fallback: bool) -> SettlementReceipt {
    SettlementReceipt {
        key: SettlementKey { batch_id: order.id, bid_id: ticket.request.id, route_id: ticket.request.route },
        operator: ticket.request.operator,
        payer: order.payer,
        recipient: order.recipient,
        source: order.source,
        target: route.target,
        amount_in: order.amount_in.0,
        gross_out: b.gross.0,
        net_out: b.net.0,
        operator_fee: b.fee.0,
        required_guarantee: attachment.requested.0,
        attached_guarantee: attachment.attached.0,
        fallback,
    }
}

/// The message with which a settlement refuses a ticket of another batch.
pub open spec fn wrong_batch_message(bid: Seq<char>, batch: Seq<char>) -> Seq<char> {
    "bid "@ + bid + " is not for batch "@ + batch
}

/// What `settle_ticket` does: the checks that leave everything as it was; transfers that could not
/// all be made, refused with no balance changed; the operator's guarantee, whose refusal moves no
/// balance either; and only then the transfers, which are then certain to succeed.
pub open spec fn settle_ticket_outcome(config: SettlementConfig, risk: RiskConfig, order: BatchOrder, ticket: BidTicket,
    fallback: bool, routes: RouteBook, acc_before: AccountBook, acc_after: AccountBook, ops_before: OperatorBook,
    ops_after: OperatorBook, r: Result<SettlementReceipt>) -> bool {
    let route = routes.map()[ticket.request.route@];
    let b = ticket_breakdown(ticket)->Ok_0;
    let unchanged = acc_after.map() == acc_before.map() && ops_after.map() == ops_before.map();
    if ticket.request.batch@ != order.id@ {
        &&& r matches Err(EclipseError::InvalidScenario(m)) && m@ == wrong_batch_message(ticket.request.id@, order.id@)
        &&& unchanged
    } else if !routes.map().dom().contains(ticket.request.route@) {
        r == Err::<SettlementReceipt, EclipseError>(EclipseError::RouteNotFound(ticket.request.route.0)) && unchanged
    } else if route.source@ != order.source@ || route.target@ != order.target@ {
        r == Err::<SettlementReceipt, EclipseError>(EclipseError::RouteAssetMismatch) && unchanged
    } else if ticket_breakdown(ticket) is Err {
        r == Err::<SettlementReceipt, EclipseError>(ticket_breakdown(ticket)->Err_0) && unchanged
    } else if preflight_result(risk, route, acc_before, b.gross, order.min_out, b.net) is Err {
        r == Err::<SettlementReceipt, EclipseError>(preflight_result(risk, route, acc_before, b.gross, order.min_out, b.net)->Err_0)
            && unchanged
    } else if transfers_refused(config, order, route, ticket, b, acc_before.map()) {
        &&& unchanged
        &&& r is Err
        &&& exists|m0: Map<Seq<char>, AccountState>, m1: Map<Seq<char>, AccountState>| same_balances(acc_before.map(), m0)
            && #[trigger] settlement_transfers(config, order, route, ticket, b, m0, m1, Err::<(), EclipseError>(r->Err_0))
    } else {
        exists|ra: Result<GuaranteeAttachment>| #[trigger] OperatorBook::attach_outcome(ops_before.map(), ops_after.map(),
            ticket.request.operator, ticket.request.route, route.target@,
            Amount(ticket.assessment.snapshot.required_guarantee), order.id.0, ra)
            && if ra is Err {
                r == Err::<SettlementReceipt, EclipseError>(ra->Err_0) && acc_after.map() == acc_before.map()
            } else {
                &&& settlement_transfers(config, order, route, ticket, b, acc_before.map(), acc_after.map(), Ok::<(), EclipseError>(()))
                &&& r == Ok::<SettlementReceipt, EclipseError>(receipt_spec(order, route, ticket, b, ra->Ok_0, fallback))
            }
    }
}

/// The transfers of a settlement cannot all be made on accounts like `before`.
pub open spec fn transfers_refused(config: SettlementConfig, order: BatchOrder, route: RoutePlan, ticket: BidTicket,
    b: AmountBreakdown, before: Map<Seq<char>, AccountState>) -> bool {
    exists|m0: Map<Seq<char>, AccountState>, m1: Map<Seq<char>, AccountState>, e: EclipseError|
        same_balances(before, m0) && #[trigger] settlement_transfers(config, order, route, ticket, b, m0, m1,
            Err::<(), EclipseError>(e))
}

/// The transfers of a settlement succeed on two maps with the same accounts and balances alike.
proof fn lemma_transfers_agree(config: SettlementConfig, order: BatchOrder, route: RoutePlan, ticket: BidTicket,
    b: AmountBreakdown, m1: Map<Seq<char>, AccountState>, a1: Map<Seq<char>, AccountState>, r1: Result<()>,
    m2: Map<Seq<char>, AccountState>, a2: Map<Seq<char>, AccountState>, r2: Result<()>)
    requires
        same_balances(m1, m2),
        settlement_transfers(config, order, route, ticket, b, m1, a1, r1),
        settlement_transfers(config, order, route, ticket, b, m2, a2, r2),
    ensures
        r1 is Ok <==> r2 is Ok,
{
    let (p1, q1) = choose|p1: Map<Seq<char>, AccountState>, q1: Result<()>|
        #[trigger] transfer_outcome(m1, p1, order.payer, config.vault_account, order.source, order.amount_in, q1)
        && second_transfers(config, order, route, ticket, b, p1, a1, q1, r1);
    let (p2, q2) = choose|p2: Map<Seq<char>, AccountState>, q2: Result<()>|
        #[trigger] transfer_outcome(m2, p2, order.payer, config.vault_account, order.source, order.amount_in, q2)
        && second_transfers(config, order, route, ticket, b, p2, a2, q2, r2);
    lemma_transfer_agrees(m1, p1, q1, m2, p2, q2, order.payer, config.vault_account, config.vault_account,
        order.source, order.amount_in);
    if q1 is Ok {
        let (u1, w1) = choose|u1: Map<Seq<char>, AccountState>, w1: Result<()>|
            #[trigger] transfer_outcome(p1, u1, config.vault_account, order.recipient, route.target, b.net, w1)
            && fee_transfer(config, route, ticket, b, u1, a1, w1, r1);
        let (u2, w2) = choose|u2: Map<Seq<char>, AccountState>, w2: Result<()>|
            #[trigger] transfer_outcome(p2, u2, config.vault_account, order.recipient, route.target, b.net, w2)
            && fee_transfer(config, route, ticket, b, u2, a2, w2, r2);
        lemma_transfer_agrees(p1, u1, w1, p2, u2, w2, config.vault_account, order.recipient, order.recipient,
            route.target, b.net);
        if w1 is Ok && b.fee.0 != 0 {
            let f1 = choose|f: AccountId| f@ == fee_account_name(ticket.request.operator@)
                && #[trigger] transfer_outcome(u1, a1, config.vault_account, f, route.target, b.fee, r1);
            let f2 = choose|f: AccountId| f@ == fee_account_name(ticket.request.operator@)
                && #[trigger] transfer_outcome(u2, a2, config.vault_account, f, route.target, b.fee, r2);
            lemma_transfer_agrees(u1, a1, r1, u2, a2, r2, config.vault_account, f1, f2, route.target, b.fee);
        }
    }
}

/// A settlement that succeeds only moves value between the payer, the vault, the recipient and the
/// operator's fee account: over all accounts, the total available amount of every asset is what it
/// was before.
pub proof fn law_settlement_conserves_totals(config: SettlementConfig, risk: RiskConfig, order: BatchOrder,
    ticket: BidTicket, fallback: bool, routes: RouteBook, acc_before: AccountBook, acc_after: AccountBook,
    ops_before: OperatorBook, ops_after: OperatorBook, receipt: SettlementReceipt, held: Seq<char>)
    requires
        acc_before.wf(),
        acc_after.wf(),
        settle_ticket_outcome(config, risk, order, ticket, fallback, routes, acc_before, acc_after, ops_before,
            ops_after, Ok::<SettlementReceipt, EclipseError>(receipt)),
    ensures
        sum_available(acc_after.entries(), held) == sum_available(acc_before.entries(), held),
{
    let route = routes.map()[ticket.request.route@];
    let b = ticket_breakdown(ticket)->Ok_0;
    let before = acc_before.map();
    let after = acc_after.map();
    let rt = Ok::<(), EclipseError>(());
    assert(settlement_transfers(config, order, route, ticket, b, before, after, rt));
    let (m1, r1) = choose|m1: Map<Seq<char>, AccountState>, r1: Result<()>|
        #[trigger] transfer_outcome(before, m1, order.payer, config.vault_account, order.source, order.amount_in, r1)
        && second_transfers(config, order, route, ticket, b, m1, after, r1, rt);
    let t1 = lemma_transfer_totals(acc_before.entries(), m1, order.payer, config.vault_account, order.source,
        order.amount_in);
    let (m2, r2) = choose|m2: Map<Seq<char>, AccountState>, r2: Result<()>|
        #[trigger] transfer_outcome(m1, m2, config.vault_account, order.recipient, route.target, b.net, r2)
        && fee_transfer(config, route, ticket, b, m2, after, r2, rt);
    let t2 = lemma_transfer_totals(t1, m2, config.vault_account, order.recipient, route.target, b.net);
    if b.fee.0 == 0 {
        crate::store::lemma_store_map_injective(t2, acc_after.entries());
        assert(sum_available(t2, held) == sum_available(t1, held));
    } else {
        let fee_account = choose|fee_account: AccountId| fee_account@ == fee_account_name(ticket.request.operator@)
            && #[trigger] transfer_outcome(m2, after, config.vault_account, fee_account, route.target, b.fee, rt);
        let t3 = lemma_transfer_totals(t2, after, config.vault_account, fee_account, route.target, b.fee);
        crate::store::lemma_store_map_injective(t3, acc_after.entries());
        assert(sum_available(t3, held) == sum_available(t2, held));
        assert(sum_available(t2, held) == sum_available(t1, held));
    }
    assert(sum_available(t1, held) == sum_available(acc_before.entries(), held));
}

/// The two events that close a settlement: its completion and the batch's closing as settled.
pub open spec fn completion_events(receipt: SettlementReceipt, e1: Event, e2: Event) -> bool {
    &&& e1 == (Event::SettlementCompleted {
        batch: receipt.key.batch_id,
        bid: receipt.key.bid_id,
        operator: receipt.operator,
        route: receipt.key.route_id,
        gross_out: receipt.gross_out,
        net_out: receipt.net_out,
        operator_fee: receipt.operator_fee,
    })
    &&& e2 matches Event::BatchClosed { batch, status } && batch == receipt.key.batch_id && status@ == "settled"@
}

/// `after` is `before` with the completion events of `receipt` appended.
pub open spec fn appends_completion(before: Seq<Event>, after: Seq<Event>, receipt: SettlementReceipt) -> bool {
    &&& after.len() == before.len() + 2
    &&& after.take(before.len() as int) == before
    &&& completion_events(receipt, after[before.len() as int], after[before.len() + 1int])
}

/// The event that records a switch from the bid `from` to the bid `to` after `error`.
pub open spec fn fallback_event(e: Event, batch: BatchId, from: BidId, to: BidId, error: EclipseError) -> bool {
    e matches Event::SettlementFallback { batch: b, from_bid, to_bid, reason }
        && b == batch && from_bid == from && to_bid == to && reason@ == error_message(error)
}

/// The ticket marked as selected.
pub open spec fn as_selected(t: BidTicket) -> BidTicket {
    BidTicket { status: BidStatus::Selected, ..t }
}

/// The batch record after settling: settled at `now`.
pub open spec fn settled_record(rec: BatchRecord, now: u64) -> BatchRecord {
    BatchRecord { status: BatchStatus::Settled, closed_at: Some(now), ..rec }
}

/// The record of `batch_id` closed as failed at `now` with `reason`; nothing else in the book changed.
pub open spec fn failed_close(bat0: BatchBook, bat1: BatchBook, batch_id: BatchId, now: u64, reason: Seq<char>) -> bool {
    &&& bat1.map() == bat0.map().insert(batch_id@, bat1.map()[batch_id@])
    &&& bat1.map()[batch_id@].fail_reason is Some
    &&& bat1.map()[batch_id@].fail_reason->Some_0@ == reason
    &&& bat1.map()[batch_id@] == (BatchRecord {
        status: BatchStatus::Failed,
        closed_at: Some(now),
        fail_reason: bat1.map()[batch_id@].fail_reason,
        ..bat0.map()[batch_id@]
    })
}

/// What `settle_selected` does once the batch and its selected bid are found, after the first
/// settlement attempt `rp` of the selected ticket `sel` left the accounts and operators at `accm` and
/// `opsm`.
pub open spec fn after_first_attempt(config: SettlementConfig, risk: RiskConfig, batch_id: BatchId, now: u64,
    allow_fallback: bool, routes: RouteBook, accm: AccountBook, acc1: AccountBook, opsm: OperatorBook, ops1: OperatorBook,
    auc0: AuctionBook, auc1: AuctionBook, bat0: BatchBook, bat1: BatchBook, ev0: Seq<Event>, ev1: Seq<Event>,
    sel: BidTicket, rp: Result<SettlementReceipt>, r: Result<SettlementReceipt>) -> bool {
    let rec = bat0.map()[batch_id@];
    let order = rec.order;
    if rp is Ok {
        &&& r == rp
        &&& acc1.map() == accm.map() && ops1.map() == opsm.map()
        &&& auc1.map() == auc0.map().insert(sel.request.id@, BidTicket { status: BidStatus::Settled, ..sel })
        &&& bat1.map() == bat0.map().insert(batch_id@, settled_record(rec, now))
        &&& appends_completion(ev0, ev1, rp->Ok_0)
    } else if !(allow_fallback || order.allow_fallback) {
        &&& r == rp
        &&& acc1.map() == accm.map() && ops1.map() == opsm.map()
        &&& auc1.entries() == auc0.entries() && ev1 == ev0
        &&& failed_close(bat0, bat1, batch_id, now, error_message(rp->Err_0))
    } else if !(exists|j: int| 0 <= j < auc0.entries().len()
        && crate::auction::fallback_candidate(#[trigger] auc0.entries()[j], batch_id@, sel.request.id@, now)) {
        &&& r == Err::<SettlementReceipt, EclipseError>(EclipseError::NoEligibleBids(batch_id.0))
        &&& acc1.map() == accm.map() && ops1.map() == opsm.map()
        &&& auc1.entries() == auc0.entries() && ev1 == ev0
        &&& failed_close(bat0, bat1, batch_id, now, error_message(r->Err_0))
    } else {
        exists|n: int, acc2: AccountBook, ops2: OperatorBook, r2: Result<SettlementReceipt>|
            #[trigger] is_fallback(auc0.entries(), n, batch_id@, sel.request.id@, now)
            && #[trigger] settle_ticket_outcome(config, risk, order, as_selected(auc0.entries()[n]),
                true, routes, accm, acc2, opsm, ops2, r2)
            && fallback_settled(batch_id, now, acc1, ops1, auc0, auc1, bat0, bat1, ev0, ev1, sel,
                as_selected(auc0.entries()[n]), n, acc2, ops2, rp->Err_0, r2, r)
    }
}

/// The end of a settlement that switched from `sel` to the fallback ticket `fb` (at index `n`) and
/// attempted it with result `r2`.
pub open spec fn fallback_settled(batch_id: BatchId, now: u64, acc1: AccountBook, ops1: OperatorBook, auc0: AuctionBook,
    auc1: AuctionBook, bat0: BatchBook, bat1: BatchBook, ev0: Seq<Event>, ev1: Seq<Event>, sel: BidTicket, fb: BidTicket,
    n: int, acc2: AccountBook, ops2: OperatorBook, error: EclipseError, r2: Result<SettlementReceipt>,
    r: Result<SettlementReceipt>) -> bool {
    let rec = bat0.map()[batch_id@];
    let auc_selected = auc0.entries().update(n, fb);
    let ev_fb = ev0.len() as int;
    &&& acc1.map() == acc2.map() && ops1.map() == ops2.map()
    &&& ev1.len() > ev_fb && ev1.take(ev_fb) == ev0
    &&& fallback_event(ev1[ev_fb], batch_id, sel.request.id, fb.request.id, error)
    &&& if r2 is Err {
        &&& r == r2
        &&& auc1.entries() == auc_selected && ev1.len() == ev_fb + 1
        &&& failed_close(bat0, bat1, batch_id, now, error_message(r2->Err_0))
    } else {
        &&& auc1.map() == crate::store::store_map(auc_selected)
            .insert(sel.request.id@, BidTicket { status: BidStatus::Superseded, ..sel })
            .insert(fb.request.id@, BidTicket { status: BidStatus::Settled, ..fb })
        &&& r == r2
        &&& bat1.map() == bat0.map().insert(batch_id@, settled_record(
            BatchRecord { fallback_bid: Some(fb.request.id), status: BatchStatus::Selected, ..rec }, now))
        &&& appends_completion(ev1.take(ev_fb + 1), ev1, r2->Ok_0)
    }
}

/// What `SettlementEngine::settle_selected` does to the books, with its result.
pub open spec fn settle_selected_outcome(config: SettlementConfig, risk: RiskConfig, batch_id: BatchId, now: u64,
    allow_fallback: bool, routes: RouteBook, acc0: AccountBook, acc1: AccountBook, ops0: OperatorBook, ops1: OperatorBook,
    auc0: AuctionBook, auc1: AuctionBook, bat0: BatchBook, bat1: BatchBook, ev0: Seq<Event>, ev1: Seq<Event>,
    r: Result<SettlementReceipt>) -> bool {
    &&& acc1.wf()
    &&& ops1.wf()
    &&& auc1.wf()
    &&& bat1.wf()
    &&& !bat0.map().dom().contains(batch_id@)
        ==> r == Err::<SettlementReceipt, EclipseError>(EclipseError::BatchNotFound(batch_id.0))
            && selected_unchanged(acc0, acc1, ops0, ops1, auc0, auc1, bat0, bat1, ev0, ev1)
    &&& bat0.map().dom().contains(batch_id@) && batch_terminal(bat0.map()[batch_id@].status)
        ==> r == Err::<SettlementReceipt, EclipseError>(EclipseError::BatchClosed(batch_id.0))
            && selected_unchanged(acc0, acc1, ops0, ops1, auc0, auc1, bat0, bat1, ev0, ev1)
    &&& bat0.map().dom().contains(batch_id@) && !batch_terminal(bat0.map()[batch_id@].status)
        && bat0.map()[batch_id@].selected_bid is None
        ==> r == Err::<SettlementReceipt, EclipseError>(EclipseError::BatchNotReady(batch_id.0))
            && selected_unchanged(acc0, acc1, ops0, ops1, auc0, auc1, bat0, bat1, ev0, ev1)
    &&& bat0.map().dom().contains(batch_id@) && !batch_terminal(bat0.map()[batch_id@].status)
        && bat0.map()[batch_id@].selected_bid is Some
        && !auc0.map().dom().contains(bat0.map()[batch_id@].selected_bid->Some_0@)
        ==> r == Err::<SettlementReceipt, EclipseError>(EclipseError::BidNotFound(bat0.map()[batch_id@].selected_bid->Some_0.0))
            && selected_unchanged(acc0, acc1, ops0, ops1, auc0, auc1, bat0, bat1, ev0, ev1)
    &&& bat0.map().dom().contains(batch_id@) && !batch_terminal(bat0.map()[batch_id@].status)
        && bat0.map()[batch_id@].selected_bid is Some
        && auc0.map().dom().contains(bat0.map()[batch_id@].selected_bid->Some_0@)
        ==> exists|accm: AccountBook, opsm: OperatorBook, rp: Result<SettlementReceipt>|
            #[trigger] settle_ticket_outcome(config, risk, bat0.map()[batch_id@].order,
                auc0.map()[bat0.map()[batch_id@].selected_bid->Some_0@], false, routes, acc0, accm, ops0, opsm, rp)
            && after_first_attempt(config, risk, batch_id, now, allow_fallback, routes, accm, acc1, opsm, ops1, auc0,
                auc1, bat0, bat1, ev0, ev1, auc0.map()[bat0.map()[batch_id@].selected_bid->Some_0@], rp, r)
}

/// Nothing changed.
pub open spec fn selected_unchanged(acc0: AccountBook, acc1: AccountBook, ops0: OperatorBook, ops1: OperatorBook,
    auc0: AuctionBook, auc1: AuctionBook, bat0: BatchBook, bat1: BatchBook, ev0: Seq<Event>, ev1: Seq<Event>) -> bool {
    &&& acc1.map() == acc0.map() && ops1.map() == ops0.map()
    &&& auc1.entries() == auc0.entries() && bat1.entries() == bat0.entries() && ev1 == ev0
}

/// Settles batches through a vault account.
#[derive(Clone, Debug)]
pub struct SettlementEngine {
    pub config: SettlementConfig,
}

impl SettlementEngine {
    pub fn new(config: SettlementConfig) -> (r: SettlementEngine)
        ensures
            r.config == config,
    {
        SettlementEngine { config }
    }

    pub fn default_with_vault(vault_account: AccountId) -> (r: SettlementEngine)
        ensures
            r.config == (SettlementConfig {
                vault_account,
                treasury_account: None,
                insurance_account: None,
                emit_balance_events: true,
            }),
    {
        SettlementEngine { config: SettlementConfig::with_vault(vault_account) }
    }

    fn ensure_route_matches_order(&self, order: &BatchOrder, route: &RoutePlan) -> (r: Result<()>)
        ensures
            route.source@ != order.source@ || route.target@ != order.target@
                ==> r == Err::<(), EclipseError>(EclipseError::RouteAssetMismatch),
            route.source@ == order.source@ && route.target@ == order.target@ ==> r is Ok,
    {
        if !(route.source.0 == order.source.0) || !(route.target.0 == order.target.0) {
            return Err(EclipseError::RouteAssetMismatch);
        }
        if !order.is_live_at(order.deadline) {
            return Err(EclipseError::BatchClosed(order.id.0.clone()));
        }
        Ok(())
    }

    fn calculate_breakdown(&self, ticket: &BidTicket) -> (r: Result<AmountBreakdown>)
        ensures
            r == ticket_breakdown(*ticket),
    {
        let gross = ticket.request.price.apply_floor(ticket.request.amount_in)?;
        let fee = ticket.request.fee_bps.checked_amount_floor(gross)?;
        AmountBreakdown::with_fee(gross, fee)
    }

    fn apply_transfers(&self, order: &BatchOrder, route: &RoutePlan, ticket: &BidTicket, breakdown: &AmountBreakdown,
        accounts: &mut AccountBook) -> (r: Result<()>)
        requires
            old(accounts).wf(),
        ensures
            final(accounts).wf(),
            settlement_transfers(self.config, *order, *route, *ticket, *breakdown, old(accounts).map(), final(accounts).map(), r),
            r is Ok ==> settlement_transfers(self.config, *order, *route, *ticket, *breakdown, old(accounts).map(),
                final(accounts).map(), Ok::<(), EclipseError>(())),
    {
        let mut name = String::new();
        push_str(&mut name, "fee-");
        push_str(&mut name, ticket.request.operator.as_str());
        let fee_account = AccountId(name);
        assert(fee_account@ =~= fee_account_name(ticket.request.operator@));
        let ghost m0 = accounts.map();
        let r1 = accounts.transfer(&order.payer, &self.config.vault_account, &order.source, order.amount_in);
        let ghost m1 = accounts.map();
        proof {
            assert(transfer_outcome(m0, m1, order.payer, self.config.vault_account, order.source, order.amount_in, r1));
        }
        if r1.is_err() {
            return r1;
        }
        let r2 = accounts.transfer(&self.config.vault_account, &order.recipient, &route.target, breakdown.net);
        let ghost m2 = accounts.map();
        proof {
            assert(transfer_outcome(m1, m2, self.config.vault_account, order.recipient, route.target, breakdown.net, r2));
        }
        if r2.is_err() {
            return r2;
        }
        if !breakdown.fee.is_zero() {
            let r3 = accounts.transfer(&self.config.vault_account, &fee_account, &route.target, breakdown.fee);
            proof {
                assert(transfer_outcome(m2, accounts.map(), self.config.vault_account, fee_account, route.target,
                    breakdown.fee, r3));
            }
            if r3.is_err() {
                return r3;
            }
            proof {
                assert(transfer_outcome(m2, accounts.map(), self.config.vault_account, fee_account, route.target,
                    breakdown.fee, Ok::<(), EclipseError>(())));
            }
        }
        Ok(())
    }

    fn attach_operator_guarantee(&self, order: &BatchOrder, route: &RoutePlan, ticket: &BidTicket,
        operators: &mut OperatorBook) -> (r: Result<GuaranteeAttachment>)
        requires
            old(operators).wf(),
        ensures
            final(operators).wf(),
            OperatorBook::attach_outcome(old(operators).map(), final(operators).map(), ticket.request.operator,
                ticket.request.route, route.target@, Amount(ticket.assessment.snapshot.required_guarantee), order.id.0, r),
    {
        operators.attach_guarantee(
            &ticket.request.operator,
            ticket.request.route.clone(),
            route.target.clone(),
            ticket.required_guarantee(),
            order.id.0.clone(),
        )
    }

    fn receipt_from_parts(&self, order: &BatchOrder, route: &RoutePlan, ticket: &BidTicket, breakdown: &AmountBreakdown,
        attachment: GuaranteeAttachment, fallback: bool) -> (r: SettlementReceipt)
        ensures
            r == receipt_spec(*order, *route, *ticket, *breakdown, attachment, fallback),
    {
        SettlementReceipt {
            key: SettlementKey::new(order.id.clone(), ticket.request.id.clone(), ticket.request.route.clone()),
            operator: ticket.request.operator.clone(),
            payer: order.payer.clone(),
            recipient: order.recipient.clone(),
            source: order.source.clone(),
            target: route.target.clone(),
            amount_in: order.amount_in.raw(),
            gross_out: breakdown.gross.raw(),
            net_out: breakdown.net.raw(),
            operator_fee: breakdown.fee.raw(),
            required_guarantee: attachment.requested.raw(),
            attached_guarantee: attachment.attached.raw(),
            fallback,
        }
    }

    /// Settles `ticket` for `order`: the route must convert the order's assets, the recomputed net
    /// output must meet the order's floor and the vault must hold the gross output; then the funds
    /// move and the operator's guarantee is attached.
    pub fn settle_ticket(
        &self,
        order: &BatchOrder,
        ticket: &BidTicket,
        fallback: bool,
        now: u64,
        accounts: &mut AccountBook,
        operators: &mut OperatorBook,
        routes: &RouteBook,
        risk: &RiskEngine,
    ) -> (r: Result<SettlementReceipt>)
        requires
            old(accounts).wf(),
            old(operators).wf(),
            routes.wf(),
        ensures
            final(accounts).wf(),
            final(operators).wf(),
            settle_ticket_outcome(self.config, risk.config, *order, *ticket, fallback, *routes, *old(accounts),
                *final(accounts), *old(operators), *final(operators), r),
            r is Err ==> final(accounts).map() == old(accounts).map(),
    {
        if !(ticket.request.batch.0 == order.id.0) {
            let mut m = String::new();
            push_str(&mut m, "bid ");
            push_str(&mut m, ticket.request.id.as_str());
            push_str(&mut m, " is not for batch ");
            push_str(&mut m, order.id.as_str());
            return Err(EclipseError::InvalidScenario(m));
        }
        let route = routes.get(&ticket.request.route)?;
        self.ensure_route_matches_order(order, route)?;
        let breakdown = self.calculate_breakdown(ticket)?;
        risk.preflight_settlement(route, accounts, breakdown.gross, order.min_out, breakdown.net)?;
        let ghost acc0 = accounts.map();
        let mut trial = accounts.clone();
        let ghost trial0 = trial.map();
        let rt = self.apply_transfers(order, route, ticket, &breakdown, &mut trial);
        proof {
            assert(settlement_transfers(self.config, *order, *route, *ticket, breakdown, trial0, trial.map(), rt));
            if rt is Ok && transfers_refused(self.config, *order, *route, *ticket, breakdown, acc0) {
                let (m0, m1, e) = choose|m0: Map<Seq<char>, AccountState>, m1: Map<Seq<char>, AccountState>, e: EclipseError|
                    same_balances(acc0, m0) && #[trigger] settlement_transfers(self.config, *order, *route, *ticket,
                        breakdown, m0, m1, Err::<(), EclipseError>(e));
                assert(same_balances(m0, trial0)) by {
                    assert forall|k: Seq<char>| #[trigger] m0.dom().contains(k) implies
                        crate::accounts::same_account(m0[k], trial0[k]) by {
                        assert(crate::accounts::same_account(acc0[k], m0[k]));
                        assert(crate::accounts::same_account(trial0[k], acc0[k]));
                    }
                }
                lemma_transfers_agree(self.config, *order, *route, *ticket, breakdown, m0, m1, Err::<(), EclipseError>(e),
                    trial0, trial.map(), rt);
            }
        }
        if let Err(e) = rt {
            proof {
                assert(same_balances(acc0, trial0)) by {
                    assert forall|k: Seq<char>| #[trigger] acc0.dom().contains(k) implies
                        crate::accounts::same_account(acc0[k], trial0[k]) by {
                        assert(crate::accounts::same_account(trial0[k], acc0[k]));
                    }
                }
                assert(settlement_transfers(self.config, *order, *route, *ticket, breakdown, trial0, trial.map(),
                    Err::<(), EclipseError>(e)));
            }
            return Err(e);
        }
        let ghost ops0 = operators.map();
        let ra = self.attach_operator_guarantee(order, route, ticket, operators);
        proof {
            assert(OperatorBook::attach_outcome(ops0, operators.map(), ticket.request.operator, ticket.request.route,
                route.target@, Amount(ticket.assessment.snapshot.required_guarantee), order.id.0, ra));
        }
        let attachment = match ra {
            Ok(a) => a,
            Err(e) => return Err(e),
        };
        let rr = self.apply_transfers(order, route, ticket, &breakdown, accounts);
        proof {
            assert(settlement_transfers(self.config, *order, *route, *ticket, breakdown, acc0, accounts.map(), rr));
            lemma_transfers_agree(self.config, *order, *route, *ticket, breakdown, acc0, accounts.map(), rr,
                trial0, trial.map(), rt);
            assert(rr is Ok);
            assert(!transfers_refused(self.config, *order, *route, *ticket, breakdown, acc0));
        }
        match rr {
            Ok(()) => {},
            Err(e) => return Err(e),
        }
        Ok(self.receipt_from_parts(order, route, ticket, &breakdown, attachment, fallback))
    }

    fn push_settlement_events(&self, receipt: &SettlementReceipt, events: &mut EventLog)
        ensures
            appends_completion(old(events).events@, final(events).events@, *receipt),
    {
        let ghost before = events.events@;
        events.push(Event::SettlementCompleted {
            batch: receipt.key.batch_id.clone(),
            bid: receipt.key.bid_id.clone(),
            operator: receipt.operator.clone(),
            route: receipt.key.route_id.clone(),
            gross_out: receipt.gross_out,
            net_out: receipt.net_out,
            operator_fee: receipt.operator_fee,
        });
        let mut status = String::new();
        push_str(&mut status, "settled");
        events.push(Event::BatchClosed { batch: receipt.key.batch_id.clone(), status });
        proof { assert(events.events@.take(before.len() as int) == before); }
    }

    /// Settles the selected bid of a batch. On failure the batch fails with the error's message,
    /// unless fallback is allowed by the caller or the order: then the best other bid is selected and
    /// settled, and the first bid is superseded.
    pub fn settle_selected(
        &self,
        batch_id: &BatchId,
        now: u64,
        allow_fallback: bool,
        accounts: &mut AccountBook,
        operators: &mut OperatorBook,
        routes: &RouteBook,
        auction: &mut AuctionBook,
        batches: &mut BatchBook,
        risk: &RiskEngine,
        events: &mut EventLog,
    ) -> (r: Result<SettlementReceipt>)
        requires
            old(accounts).wf(),
            old(operators).wf(),
            routes.wf(),
            old(auction).wf(),
            old(batches).wf(),
        ensures
            settle_selected_outcome(self.config, risk.config, *batch_id, now, allow_fallback, *routes, *old(accounts),
                *final(accounts), *old(operators), *final(operators), *old(auction), *final(auction), *old(batches),
                *final(batches), old(events).events@, final(events).events@, r),
    {
        let record = batches.get(batch_id)?;
        if record.status.is_terminal() {
            return Err(EclipseError::BatchClosed(batch_id.0.clone()));
        }
        let selected_bid = match &record.selected_bid {
            Some(b) => b.clone(),
            None => return Err(EclipseError::BatchNotReady(batch_id.0.clone())),
        };
        let selected = auction.get(&selected_bid)?.clone();
        let order = record.order.clone();
        let ghost acc0 = *accounts;
        let ghost ops0 = *operators;
        let ghost auc0 = *auction;
        let ghost bat0 = *batches;
        let ghost ev0 = events.events@;
        proof {
            auc0.tickets.lemma_map_key(selected_bid@);
            bat0.batches.lemma_map_key(batch_id@);
        }
        let rp = self.settle_ticket(&order, &selected, false, now, accounts, operators, routes, risk);
        let ghost accm = *accounts;
        let ghost opsm = *operators;
        proof {
            assert(settle_ticket_outcome(self.config, risk.config, order, selected, false, *routes, acc0, accm, ops0, opsm, rp));
        }
        match rp {
            Ok(receipt) => {
                let r1 = auction.mark_settled(&selected.request.id);
                let r2 = batches.close_settled(batch_id, now);
                self.push_settlement_events(&receipt, events);
                proof {
                    assert(after_first_attempt(self.config, risk.config, *batch_id, now, allow_fallback, *routes, accm,
                        *accounts, opsm, *operators, auc0, *auction, bat0, *batches, ev0, events.events@, selected,
                        Ok::<SettlementReceipt, EclipseError>(receipt), Ok::<SettlementReceipt, EclipseError>(receipt)));
                }
                Ok(receipt)
            },
            Err(error) => {
                if allow_fallback || order.allow_fallback {
                    let fallback = match auction.select_next(batch_id, &selected.request.id, now) {
                        Ok(t) => t,
                        Err(e) => {
                            let reason = e.message();
                            let rc = batches.close_failed(batch_id, now, reason.as_str());
                            proof {
                                assert(after_first_attempt(self.config, risk.config, *batch_id, now, allow_fallback, *routes,
                                    accm, *accounts, opsm, *operators, auc0, *auction, bat0, *batches, ev0, events.events@,
                                    selected, Err::<SettlementReceipt, EclipseError>(error), Err::<SettlementReceipt, EclipseError>(e)));
                            }
                            return Err(e);
                        },
                    };
                    let ghost n = choose|n: int| #[trigger] is_fallback(auc0.entries(), n, batch_id@, selected.request.id@, now)
                        && fallback == (BidTicket { status: BidStatus::Selected, ..auc0.entries()[n] })
                        && auction.entries() == auc0.entries().update(n, fallback);
                    let ghost auc_sel = *auction;
                    proof {
                        assert(fallback == as_selected(auc0.entries()[n]));
                        assert(crate::auction::fallback_candidate(auc0.entries()[n], batch_id@, selected.request.id@, now));
                    }
                    events.push(Event::SettlementFallback {
                        batch: batch_id.clone(),
                        from_bid: selected.request.id.clone(),
                        to_bid: fallback.request.id.clone(),
                        reason: error.message(),
                    });
                    let ghost ev_fb = events.events@;
                    let r2 = self.settle_ticket(&order, &fallback, true, now, accounts, operators, routes, risk);
                    proof {
                        assert(settle_ticket_outcome(self.config, risk.config, order, fallback, true, *routes, accm, *accounts,
                            opsm, *operators, r2));
                        assert(ev_fb.take(ev0.len() as int) == ev0);
                    }
                    let receipt = match r2 {
                        Ok(x) => x,
                        Err(e) => {
                            let reason = e.message();
                            let rc = batches.close_failed(batch_id, now, reason.as_str());
                            proof {
                                assert(fallback_settled(*batch_id, now, *accounts, *operators, auc0, *auction, bat0, *batches,
                                    ev0, events.events@, selected, fallback, n, *accounts, *operators, error, r2,
                                    Err::<SettlementReceipt, EclipseError>(e)));
                                assert(after_first_attempt(self.config, risk.config, *batch_id, now, allow_fallback, *routes,
                                    accm, *accounts, opsm, *operators, auc0, *auction, bat0, *batches, ev0, events.events@,
                                    selected, Err::<SettlementReceipt, EclipseError>(error), Err::<SettlementReceipt, EclipseError>(e)));
                            }
                            return Err(e);
                        },
                    };
                    proof {
                        crate::store::lemma_store_update(auc0.entries(), n, fallback);
                        assert(auc_sel.map().dom().contains(selected.request.id@));
                        assert(auc_sel.map()[selected.request.id@] == selected);
                    }
                    let rs = auction.mark_superseded(&selected.request.id);
                    let rf = auction.mark_settled(&fallback.request.id);
                    let ghost bat_before = *batches;
                    let rb = batches.set_fallback(batch_id, &fallback);
                    if let Err(e) = rb {
                        proof {
                            assert(batches.entries() == bat0.entries());
                            assert(fallback_settled(*batch_id, now, *accounts, *operators, auc0, *auction, bat0, *batches,
                                ev0, events.events@, selected, fallback, n, *accounts, *operators, error, r2,
                                Err::<SettlementReceipt, EclipseError>(e)));
                            assert(after_first_attempt(self.config, risk.config, *batch_id, now, allow_fallback, *routes,
                                accm, *accounts, opsm, *operators, auc0, *auction, bat0, *batches, ev0, events.events@,
                                selected, Err::<SettlementReceipt, EclipseError>(error), Err::<SettlementReceipt, EclipseError>(e)));
                        }
                        return Err(e);
                    }
                    let rc = batches.close_settled(batch_id, now);
                    self.push_settlement_events(&receipt, events);
                    proof {
                        assert(events.events@.take(ev_fb.len() as int) == ev_fb);
                        assert(events.events@.take(ev0.len() as int) == ev0);
                        assert(auction.map() == crate::store::store_map(auc0.entries().update(n, fallback))
                            .insert(selected.request.id@, BidTicket { status: BidStatus::Superseded, ..selected })
                            .insert(fallback.request.id@, BidTicket { status: BidStatus::Settled, ..fallback }));
                        assert(!batch_terminal(bat0.map()[batch_id@].status));
                        assert(batches.map() == bat0.map().insert(batch_id@, settled_record(
                            BatchRecord { fallback_bid: Some(fallback.request.id), status: BatchStatus::Selected, ..bat0.map()[batch_id@] }, now)));
                        assert(appends_completion(events.events@.take(ev0.len() + 1int), events.events@, receipt));
                        assert(fallback_settled(*batch_id, now, *accounts, *operators, auc0, *auction, bat0, *batches,
                            ev0, events.events@, selected, fallback, n, *accounts, *operators, error, r2,
                            Ok::<SettlementReceipt, EclipseError>(receipt)));
                        assert(after_first_attempt(self.config, risk.config, *batch_id, now, allow_fallback, *routes,
                            accm, *accounts, opsm, *operators, auc0, *auction, bat0, *batches, ev0, events.events@,
                            selected, Err::<SettlementReceipt, EclipseError>(error), Ok::<SettlementReceipt, EclipseError>(receipt)));
                    }
                    Ok(receipt)
                } else {
                    let reason = error.message();
                    let rc = batches.close_failed(batch_id, now, reason.as_str());
                    proof {
                        assert(after_first_attempt(self.config, risk.config, *batch_id, now, allow_fallback, *routes, accm,
                            *accounts, opsm, *operators, auc0, *auction, bat0, *batches, ev0, events.events@, selected,
                            Err::<SettlementReceipt, EclipseError>(error), Err::<SettlementReceipt, EclipseError>(error)));
                    }
                    Err(error)
                }
            },
        }
    }
}

/// What a settlement of a ticket would produce, computed from the ticket alone.
#[derive(Clone, Debug, PartialEq, Eq)]
pub struct SettlementPreview {
    pub batch: BatchId,
    pub bid: BidId,
    pub route: RouteId,
    pub operator: OperatorId,
    pub gross_out: u128,
    pub net_out: u128,
    pub fee: u128,
    pub required_guarantee: u128,
}

impl SettlementPreview {
    pub fn from_ticket(ticket: &BidTicket) -> (r: Result<SettlementPreview>)
        ensures
            ticket_breakdown(*ticket) is Err ==> r == Err::<SettlementPreview, EclipseError>(ticket_breakdown(*ticket)->Err_0),
            ticket_breakdown(*ticket) is Ok ==> r == Ok::<SettlementPreview, EclipseError>(SettlementPreview {
                batch: ticket.request.batch,
                bid: ticket.request.id,
                route: ticket.request.route,
                operator: ticket.request.operator,
                gross_out: ticket_breakdown(*ticket)->Ok_0.gross.0,
                net_out: ticket_breakdown(*ticket)->Ok_0.net.0,
                fee: ticket_breakdown(*ticket)->Ok_0.fee.0,
                required_guarantee: ticket.assessment.snapshot.required_guarantee,
            }),
    {
        let gross = ticket.request.price.apply_floor(ticket.request.amount_in)?;
        let fee = ticket.request.fee_bps.checked_amount_floor(gross)?;
        let net = gross.checked_sub(fee)?;
        Ok(SettlementPreview {
            batch: ticket.request.batch.clone(),
            bid: ticket.request.id.clone(),
            route: ticket.request.route.clone(),
            operator: ticket.request.operator.clone(),
            gross_out: gross.raw(),
            net_out: net.raw(),
            fee: fee.raw(),
            required_guarantee: ticket.required_guarantee().raw(),
        })
    }
}

} // verus!
