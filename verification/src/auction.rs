use crate::accounts::AccountBook;
use crate::amount::{floor_muldiv, mul_div_floor_result, Amount, BasisPoints, Ratio, U128_MAX};
use crate::asset::AssetBook;
use crate::error::{EclipseError, Result};
use crate::ids::{BatchId, BidId, OperatorId, RouteId};
use crate::operators::OperatorBook;
use crate::risk::{assess_bid_outcome, bid_figures, RiskConfig, LiquiditySnapshot, RiskAssessment, RiskEngine, REJECTED_PENALTY};
use crate::routes::{class_priority, RouteBook};
use crate::store::{has_key, lemma_sorted_unique, lemma_store_map_index, sorted_by_key, Keyed, KeyedStore};
use crate::text::{compare_str, lemma_seq_lt_asymmetric, lemma_seq_lt_total, lemma_seq_lt_transitive, push_str, seq_lt};
use vstd::prelude::*;

verus! {

/// Free-form labels attached to a bid.
#[derive(Debug, PartialEq, Eq, Default)]
pub struct BidMetadata {
    pub lane: String,
    pub client_tag: String,
    pub quote_ref: String,
}

impl Clone for BidMetadata {
    fn clone(&self) -> (r: Self)
        ensures
            r == *self,
    {
        BidMetadata { lane: self.lane.clone(), client_tag: self.client_tag.clone(), quote_ref: self.quote_ref.clone() }
    }
}

/// An operator's offer to fill a batch over a route.
#[derive(Debug, PartialEq, Eq)]
pub struct BidRequest {
    pub id: BidId,
    pub batch: BatchId,
    pub route: RouteId,
    pub operator: OperatorId,
    pub amount_in: Amount,
    pub price: Ratio,
    pub fee_bps: BasisPoints,
    pub guarantee_bps: BasisPoints,
    pub received_at: u64,
    pub expires_at: u64,
    pub metadata: BidMetadata,
}

impl Clone for BidRequest {
    fn clone(&self) -> (r: Self)
        ensures
            r == *self,
    {
        BidRequest {
            id: self.id.clone(),
            batch: self.batch.clone(),
            route: self.route.clone(),
            operator: self.operator.clone(),
            amount_in: self.amount_in,
            price: self.price,
            fee_bps: self.fee_bps,
            guarantee_bps: self.guarantee_bps,
            received_at: self.received_at,
            expires_at: self.expires_at,
            metadata: self.metadata.clone(),
        }
    }
}

/// The output that a bid promises before its fee: `floor(amount_in * price)`.
pub open spec fn projected_gross_spec(request: BidRequest) -> Result<Amount> {
    mul_div_floor_result(request.amount_in, request.price.numerator, request.price.denominator)
}

/// The output that a bid promises after its fee.
pub open spec fn projected_net_spec(request: BidRequest) -> Result<Amount> {
    match projected_gross_spec(request) {
        Err(e) => Err(e),
        Ok(gross) => if gross.0 * request.fee_bps.0 > U128_MAX {
            Err(EclipseError::AmountOverflow)
        } else if floor_muldiv(gross.0, request.fee_bps.0 as u128, 10_000) > gross.0 {
            Err(EclipseError::AmountUnderflow)
        } else {
            Ok(Amount((gross.0 - floor_muldiv(gross.0, request.fee_bps.0 as u128, 10_000)) as u128))
        },
    }
}

impl BidRequest {
    pub fn projected_gross(&self) -> (r: Result<Amount>)
        ensures
            r == projected_gross_spec(*self),
    {
        self.price.apply_floor(self.amount_in)
    }

    pub fn projected_net(&self) -> (r: Result<Amount>)
        ensures
            r == projected_net_spec(*self),
    {
        let gross = self.projected_gross()?;
        let fee = self.fee_bps.checked_amount_floor(gross)?;
        gross.checked_sub(fee)
    }
}

#[derive(Debug, Clone, Copy, PartialEq, Eq, Structural)]
pub enum BidStatus {
    Received,
    Admitted,
    Rejected,
    Selected,
    Settled,
    Superseded,
}

pub open spec fn bid_status_name(status: BidStatus) -> Seq<char> {
    match status {
        BidStatus::Received => "received"@,
        BidStatus::Admitted => "admitted"@,
        BidStatus::Rejected => "rejected"@,
        BidStatus::Selected => "selected"@,
        BidStatus::Settled => "settled"@,
        BidStatus::Superseded => "superseded"@,
    }
}

impl BidStatus {
    pub fn as_str(&self) -> (r: &'static str)
        ensures
            r@ == bid_status_name(*self),
    {
        match self {
            BidStatus::Received => "received",
            BidStatus::Admitted => "admitted",
            BidStatus::Rejected => "rejected",
            BidStatus::Selected => "selected",
            BidStatus::Settled => "settled",
            BidStatus::Superseded => "superseded",
        }
    }
}

/// The terms of a bid's score and the score itself.
#[derive(Debug, Clone, Copy, PartialEq, Eq, Structural)]
pub struct ScoreBreakdown {
    pub net_out: u128,
    pub guarantee_bps: u32,
    pub fee_bps: u32,
    pub route_priority: i128,
    pub risk_penalty: i128,
    pub final_score: i128,
}

/// The running sums of the score, in the order in which they are added up.
pub open spec fn score_steps(net_out: u128, guarantee_bps: u32, fee_bps: u32, route_priority: i128, risk_penalty: i128)
    -> (int, int, int, int) {
    let a = (net_out as i128) + route_priority;
    let b = a + guarantee_bps;
    let c = b - (fee_bps as int) * 3;
    (a, b, c, c - risk_penalty)
}

pub open spec fn fits_i128(x: int) -> bool {
    i128::MIN <= x <= i128::MAX
}

/// Every running sum of the score fits in an `i128`.
pub open spec fn score_fits(net_out: u128, guarantee_bps: u32, fee_bps: u32, route_priority: i128, risk_penalty: i128) -> bool {
    let (a, b, c, d) = score_steps(net_out, guarantee_bps, fee_bps, route_priority, risk_penalty);
    fits_i128(a) && fits_i128(b) && fits_i128(c) && fits_i128(d)
}

impl ScoreBreakdown {
    /// Net output plus route priority and guarantee share, less three times the fee share and the
    /// risk penalty.
    pub fn new(net_out: Amount, guarantee_bps: BasisPoints, fee_bps: BasisPoints, route_priority: i128, risk_penalty: i128)
        -> (r: ScoreBreakdown)
        requires
            score_fits(net_out.0, guarantee_bps.0, fee_bps.0, route_priority, risk_penalty),
        ensures
            r == (ScoreBreakdown {
                net_out: net_out.0,
                guarantee_bps: guarantee_bps.0,
                fee_bps: fee_bps.0,
                route_priority,
                risk_penalty,
                final_score: score_steps(net_out.0, guarantee_bps.0, fee_bps.0, route_priority, risk_penalty).3 as i128,
            }),
            net_out.0 <= i128::MAX ==> r.final_score
                == net_out.0 + route_priority + guarantee_bps.0 - 3 * fee_bps.0 - risk_penalty,
    {
        let final_score = net_out.raw() as i128 + route_priority + guarantee_bps.raw() as i128 - (fee_bps.raw() as i128 * 3)
            - risk_penalty;
        ScoreBreakdown {
            net_out: net_out.raw(),
            guarantee_bps: guarantee_bps.raw(),
            fee_bps: fee_bps.raw(),
            route_priority,
            risk_penalty,
            final_score,
        }
    }
}

/// A bid as the auction keeps it: the request, its status, the admission decision and its score.
#[derive(Debug, PartialEq, Eq)]
pub struct BidTicket {
    pub request: BidRequest,
    pub status: BidStatus,
    pub assessment: RiskAssessment,
    pub score: ScoreBreakdown,
    pub reject_reason: Option<String>,
}

impl Clone for BidTicket {
    fn clone(&self) -> (r: Self)
        ensures
            r == *self,
    {
        BidTicket {
            request: self.request.clone(),
            status: self.status,
            assessment: self.assessment.clone(),
            score: self.score,
            reject_reason: match &self.reject_reason {
                Some(s) => Some(s.clone()),
                None => None,
            },
        }
    }
}

impl Keyed for BidTicket {
    open spec fn key(&self) -> Seq<char> {
        self.request.id@
    }

    fn key_str(&self) -> (r: &str) {
        self.request.id.as_str()
    }
}

/// The ticket can still be acted on at `timestamp`.
pub open spec fn ticket_live(t: BidTicket, timestamp: u64) -> bool {
    timestamp <= t.request.expires_at
        && (t.status == BidStatus::Admitted || t.status == BidStatus::Selected || t.status == BidStatus::Received)
}

/// The ticket may win its batch at `timestamp`.
pub open spec fn ticket_eligible(t: BidTicket, timestamp: u64) -> bool {
    t.assessment.admitted && ticket_live(t, timestamp) && (t.status == BidStatus::Admitted || t.status == BidStatus::Selected)
}

impl BidTicket {
    pub fn id(&self) -> (r: &BidId)
        ensures
            *r == self.request.id,
    {
        &self.request.id
    }

    pub fn batch(&self) -> (r: &BatchId)
        ensures
            *r == self.request.batch,
    {
        &self.request.batch
    }

    pub fn route(&self) -> (r: &RouteId)
        ensures
            *r == self.request.route,
    {
        &self.request.route
    }

    pub fn operator(&self) -> (r: &OperatorId)
        ensures
            *r == self.request.operator,
    {
        &self.request.operator
    }

    pub fn is_live_at(&self, timestamp: u64) -> (r: bool)
        ensures
            r == ticket_live(*self, timestamp),
    {
        timestamp <= self.request.expires_at
            && match self.status {
                BidStatus::Admitted | BidStatus::Selected | BidStatus::Received => true,
                _ => false,
            }
    }

    pub fn is_eligible(&self, timestamp: u64) -> (r: bool)
        ensures
            r == ticket_eligible(*self, timestamp),
    {
        self.assessment.admitted && self.is_live_at(timestamp)
            && match self.status {
                BidStatus::Admitted | BidStatus::Selected => true,
                _ => false,
            }
    }

    pub fn liquidity_snapshot(&self) -> (r: &LiquiditySnapshot)
        ensures
            *r == self.assessment.snapshot,
    {
        &self.assessment.snapshot
    }

    pub fn gross_out(&self) -> (r: Amount)
        ensures
            r.0 == self.assessment.snapshot.projected_gross_out,
    {
        Amount(self.assessment.snapshot.projected_gross_out)
    }

    pub fn net_out(&self) -> (r: Amount)
        ensures
            r.0 == self.assessment.snapshot.projected_net_out,
    {
        Amount(self.assessment.snapshot.projected_net_out)
    }

    pub fn required_guarantee(&self) -> (r: Amount)
        ensures
            r.0 == self.assessment.snapshot.required_guarantee,
    {
        Amount(self.assessment.snapshot.required_guarantee)
    }
}

/// The tickets of `batch`, in bid order.
pub open spec fn batch_tickets(s: Seq<BidTicket>, batch: Seq<char>) -> Seq<BidTicket>
    decreases s.len(),
{
    if s.len() == 0 {
        Seq::empty()
    } else if s.last().request.batch@ == batch {
        batch_tickets(s.drop_last(), batch).push(s.last())
    } else {
        batch_tickets(s.drop_last(), batch)
    }
}

/// The tickets of `batch` that may win it at `now`, in bid order.
pub open spec fn eligible_tickets(s: Seq<BidTicket>, batch: Seq<char>, now: u64) -> Seq<BidTicket>
    decreases s.len(),
{
    if s.len() == 0 {
        Seq::empty()
    } else if s.last().request.batch@ == batch && ticket_eligible(s.last(), now) {
        eligible_tickets(s.drop_last(), batch, now).push(s.last())
    } else {
        eligible_tickets(s.drop_last(), batch, now)
    }
}

/// `t` competes for `batch` at `now`.
pub open spec fn competes(t: BidTicket, batch: Seq<char>, now: u64) -> bool {
    t.request.batch@ == batch && ticket_eligible(t, now)
}

/// `a` ranks below `b` for winning a batch: lower score, then later arrival, then larger bid id.
pub open spec fn ranks_below(a: BidTicket, b: BidTicket) -> bool {
    ||| a.score.final_score < b.score.final_score
    ||| a.score.final_score == b.score.final_score && a.request.received_at > b.request.received_at
    ||| a.score.final_score == b.score.final_score && a.request.received_at == b.request.received_at
        && seq_lt(b.request.id@, a.request.id@)
}

/// The ticket at `i` outranks every other ticket that competes for `batch` at `now`.
pub open spec fn is_winner(s: Seq<BidTicket>, i: int, batch: Seq<char>, now: u64) -> bool {
    &&& 0 <= i < s.len()
    &&& competes(s[i], batch, now)
    &&& forall|j: int| 0 <= j < s.len() && j != i && competes(#[trigger] s[j], batch, now) ==> ranks_below(s[j], s[i])
}

/// A ticket after `batch` has picked the bid `winner`: the winner is selected, the other selected or
/// admitted tickets of the batch are admitted, everything else stays.
pub open spec fn after_selection(t: BidTicket, batch: Seq<char>, winner: Seq<char>) -> BidTicket {
    if t.request.batch@ != batch {
        t
    } else if t.request.id@ == winner {
        BidTicket { status: BidStatus::Selected, ..t }
    } else if t.status == BidStatus::Admitted || t.status == BidStatus::Selected {
        BidTicket { status: BidStatus::Admitted, ..t }
    } else {
        t
    }
}

/// `t` may replace the bid `excluded` for `batch` at `now`.
pub open spec fn fallback_candidate(t: BidTicket, batch: Seq<char>, excluded: Seq<char>, now: u64) -> bool {
    t.request.batch@ == batch && t.request.id@ != excluded && t.assessment.admitted && ticket_live(t, now)
}

/// `a` ranks below `b` for replacing a bid: lower score, then later arrival.
pub open spec fn ranks_below_fallback(a: BidTicket, b: BidTicket) -> bool {
    ||| a.score.final_score < b.score.final_score
    ||| a.score.final_score == b.score.final_score && a.request.received_at > b.request.received_at
}

/// The ticket at `i` is the last, in bid order, of the best fallback candidates.
pub open spec fn is_fallback(s: Seq<BidTicket>, i: int, batch: Seq<char>, excluded: Seq<char>, now: u64) -> bool {
    &&& 0 <= i < s.len()
    &&& fallback_candidate(s[i], batch, excluded, now)
    &&& forall|j: int| 0 <= j < i && fallback_candidate(#[trigger] s[j], batch, excluded, now)
        ==> !ranks_below_fallback(s[i], s[j])
    &&& forall|j: int| i < j < s.len() && fallback_candidate(#[trigger] s[j], batch, excluded, now)
        ==> ranks_below_fallback(s[j], s[i])
}

/// Ranking for a batch is a strict order on tickets with distinct ids.
pub proof fn lemma_ranks_below_order(a: BidTicket, b: BidTicket, c: BidTicket)
    ensures
        a.request.id@ != b.request.id@ ==> ranks_below(a, b) || ranks_below(b, a),
        !(ranks_below(a, b) && ranks_below(b, a)),
        ranks_below(a, b) && ranks_below(b, c) ==> ranks_below(a, c),
{
    lemma_seq_lt_total(a.request.id@, b.request.id@);
    if seq_lt(a.request.id@, b.request.id@) {
        lemma_seq_lt_asymmetric(a.request.id@, b.request.id@);
    }
    if ranks_below(a, b) && ranks_below(b, c) && a.score.final_score == c.score.final_score
        && a.request.received_at == c.request.received_at {
        lemma_seq_lt_transitive(c.request.id@, b.request.id@, a.request.id@);
    }
}

/// The bids, keyed and ordered by bid id.
#[derive(Clone, Debug)]
pub struct AuctionBook {
    pub tickets: KeyedStore<BidTicket>,
}

impl Default for AuctionBook {
    fn default() -> (r: AuctionBook)
        ensures
            r.wf(),
            r.entries() == Seq::<BidTicket>::empty(),
    {
        AuctionBook::new()
    }
}

impl AuctionBook {
    pub open spec fn entries(&self) -> Seq<BidTicket> {
        self.tickets@
    }

    pub open spec fn wf(&self) -> bool {
        self.tickets.wf()
    }

    pub open spec fn map(&self) -> Map<Seq<char>, BidTicket> {
        self.tickets.map()
    }

    pub fn new() -> (r: AuctionBook)
        ensures
            r.wf(),
            r.entries() == Seq::<BidTicket>::empty(),
    {
        AuctionBook { tickets: KeyedStore::new() }
    }

    /// The ticket under `id`, to be changed in place. A change that keeps its identifier keeps the
    /// book well formed and replaces that ticket in it.
    pub fn get_mut(&mut self, id: &BidId) -> (r: Result<&mut BidTicket>)
        requires
            old(self).wf(),
        ensures
            !old(self).map().dom().contains(id@) ==> r == Err::<&mut BidTicket, EclipseError>(EclipseError::BidNotFound(id.0))
                && *final(self) == *old(self),
            old(self).map().dom().contains(id@) ==> r is Ok && *r->Ok_0 == old(self).map()[id@],
            r is Ok && final(r->Ok_0).key() == id@ ==> final(self).wf()
                && final(self).map() == old(self).map().insert(id@, *final(r->Ok_0)),
    {
        match self.tickets.get_mut(id.as_str()) {
            Some(v) => Ok(v),
            None => Err(EclipseError::BidNotFound(id.0.clone())),
        }
    }

    pub fn get(&self, id: &BidId) -> (r: Result<&BidTicket>)
        requires
            self.wf(),
        ensures
            self.map().dom().contains(id@) ==> r is Ok && *r->Ok_0 == self.map()[id@],
            !self.map().dom().contains(id@) ==> r == Err::<&BidTicket, EclipseError>(EclipseError::BidNotFound(id.0)),
    {
        match self.tickets.find(id.as_str()) {
            Some(i) => {
                proof { lemma_store_map_index(self.tickets@, i as int); }
                Ok(self.tickets.at(i))
            },
            None => Err(EclipseError::BidNotFound(id.0.clone())),
        }
    }

    /// The tickets of `batch`, in bid order.
    pub fn by_batch(&self, batch: &BatchId) -> (r: Vec<&BidTicket>)
        ensures
            r@.len() == batch_tickets(self.entries(), batch@).len(),
            forall|i: int| 0 <= i < r@.len() ==> *#[trigger] r@[i] == batch_tickets(self.entries(), batch@)[i],
    {
        let mut out: Vec<&BidTicket> = Vec::new();
        let ghost mut g: Seq<BidTicket> = Seq::empty();
        let mut i: usize = 0;
        while i < self.tickets.len()
            invariant
                i <= self.tickets@.len(),
                g == batch_tickets(self.tickets@.take(i as int), batch@),
                out@.len() == g.len(),
                forall|j: int| 0 <= j < out@.len() ==> *#[trigger] out@[j] == g[j],
            decreases self.tickets@.len() - i,
        {
            proof { assert(self.tickets@.take(i + 1).drop_last() == self.tickets@.take(i as int)); }
            let t = self.tickets.at(i);
            if t.request.batch.0 == batch.0 {
                out.push(t);
                proof { g = g.push(*t); }
            }
            i = i + 1;
        }
        proof { assert(self.tickets@.take(i as int) == self.tickets@); }
        out
    }

    /// The tickets of `batch` that may win it at `now`, in bid order.
    pub fn admitted_by_batch(&self, batch: &BatchId, now: u64) -> (r: Vec<&BidTicket>)
        ensures
            r@.len() == eligible_tickets(self.entries(), batch@, now).len(),
            forall|i: int| 0 <= i < r@.len() ==> *#[trigger] r@[i] == eligible_tickets(self.entries(), batch@, now)[i],
    {
        let mut out: Vec<&BidTicket> = Vec::new();
        let ghost mut g: Seq<BidTicket> = Seq::empty();
        let mut i: usize = 0;
        while i < self.tickets.len()
            invariant
                i <= self.tickets@.len(),
                g == eligible_tickets(self.tickets@.take(i as int), batch@, now),
                out@.len() == g.len(),
                forall|j: int| 0 <= j < out@.len() ==> *#[trigger] out@[j] == g[j],
            decreases self.tickets@.len() - i,
        {
            proof { assert(self.tickets@.take(i + 1).drop_last() == self.tickets@.take(i as int)); }
            let t = self.tickets.at(i);
            if t.request.batch.0 == batch.0 && t.is_eligible(now) {
                out.push(t);
                proof { g = g.push(*t); }
            }
            i = i + 1;
        }
        proof { assert(self.tickets@.take(i as int) == self.tickets@); }
        out
    }

    /// Sets the status of the ticket at `i`.
    fn set_status_at(&mut self, i: usize, status: BidStatus)
        requires
            old(self).wf(),
            i < old(self).entries().len(),
        ensures
            final(self).wf(),
            final(self).entries() == old(self).entries().update(i as int, BidTicket { status, ..old(self).entries()[i as int] }),
            final(self).map() == old(self).map().insert(old(self).entries()[i as int].key(),
                BidTicket { status, ..old(self).entries()[i as int] }),
    {
        let ghost before = self.tickets@;
        let mut t = self.tickets.take(i);
        t.status = status;
        self.tickets.put_back(i, t, Ghost(before));
    }

    pub fn mark_settled(&mut self, bid: &BidId) -> (r: Result<()>)
        requires
            old(self).wf(),
        ensures
            final(self).wf(),
            !old(self).map().dom().contains(bid@) ==> r == Err::<(), EclipseError>(EclipseError::BidNotFound(bid.0))
                && final(self).entries() == old(self).entries(),
            old(self).map().dom().contains(bid@) ==> r is Ok && final(self).map()
                == old(self).map().insert(bid@, BidTicket { status: BidStatus::Settled, ..old(self).map()[bid@] }),
    {
        match self.tickets.find(bid.as_str()) {
            Some(i) => {
                proof { lemma_store_map_index(self.tickets@, i as int); }
                self.set_status_at(i, BidStatus::Settled);
                Ok(())
            },
            None => Err(EclipseError::BidNotFound(bid.0.clone())),
        }
    }

    pub fn mark_superseded(&mut self, bid: &BidId) -> (r: Result<()>)
        requires
            old(self).wf(),
        ensures
            final(self).wf(),
            !old(self).map().dom().contains(bid@) ==> r == Err::<(), EclipseError>(EclipseError::BidNotFound(bid.0))
                && final(self).entries() == old(self).entries(),
            old(self).map().dom().contains(bid@) ==> r is Ok && final(self).map()
                == old(self).map().insert(bid@, BidTicket { status: BidStatus::Superseded, ..old(self).map()[bid@] }),
    {
        match self.tickets.find(bid.as_str()) {
            Some(i) => {
                proof { lemma_store_map_index(self.tickets@, i as int); }
                self.set_status_at(i, BidStatus::Superseded);
                Ok(())
            },
            None => Err(EclipseError::BidNotFound(bid.0.clone())),
        }
    }

    /// Whether `a` ranks below `b` for winning a batch.
    fn ranks_below_exec(a: &BidTicket, b: &BidTicket) -> (r: bool)
        ensures
            r == ranks_below(*a, *b),
    {
        a.score.final_score < b.score.final_score
            || (a.score.final_score == b.score.final_score && a.request.received_at > b.request.received_at)
            || (a.score.final_score == b.score.final_score && a.request.received_at == b.request.received_at
                && compare_str(b.request.id.as_str(), a.request.id.as_str()) == -1)
    }

    /// The index of the winner of `batch` at `now`, if any ticket competes.
    fn winner_index(&self, batch: &BatchId, now: u64) -> (r: Option<usize>)
        requires
            self.wf(),
        ensures
            r is Some ==> is_winner(self.entries(), r->Some_0 as int, batch@, now),
            r is None ==> forall|j: int| 0 <= j < self.entries().len() ==> !competes(#[trigger] self.entries()[j], batch@, now),
    {
        let ghost s = self.tickets@;
        let mut best: Option<usize> = None;
        let mut i: usize = 0;
        while i < self.tickets.len()
            invariant
                s == self.tickets@,
                sorted_by_key(s),
                i <= s.len(),
                best is None ==> forall|j: int| 0 <= j < i ==> !competes(#[trigger] s[j], batch@, now),
                best is Some ==> {
                    let b = best->Some_0 as int;
                    &&& b < i
                    &&& competes(s[b], batch@, now)
                    &&& forall|j: int| 0 <= j < i && j != b && competes(#[trigger] s[j], batch@, now) ==> ranks_below(s[j], s[b])
                },
            decreases s.len() - i,
        {
            let t = self.tickets.at(i);
            if t.request.batch.0 == batch.0 && t.is_eligible(now) {
                match best {
                    None => {
                        best = Some(i);
                    },
                    Some(b) => {
                        let cur = self.tickets.at(b);
                        if !Self::ranks_below_exec(t, cur) {
                            proof {
                                assert(seq_lt(s[b as int].key(), s[i as int].key()));
                                lemma_seq_lt_asymmetric(s[b as int].key(), s[i as int].key());
                                lemma_ranks_below_order(s[i as int], s[b as int], s[b as int]);
                                assert forall|j: int| 0 <= j < i + 1 && j != i && competes(#[trigger] s[j], batch@, now)
                                    implies ranks_below(s[j], s[i as int]) by {
                                    if j != b {
                                        lemma_ranks_below_order(s[j], s[b as int], s[i as int]);
                                    }
                                }
                            }
                            best = Some(i);
                        }
                    },
                }
            }
            i = i + 1;
        }
        best
    }

    /// Picks the winner of `batch` at `now` and marks it selected; the other selected or admitted
    /// tickets of the batch go back to admitted.
    pub fn select_winner(&mut self, batch: &BatchId, now: u64) -> (r: Result<BidTicket>)
        requires
            old(self).wf(),
        ensures
            select_winner_outcome(*old(self), *final(self), *batch, now, r),
    {
        let w = match self.winner_index(batch, now) {
            Some(w) => w,
            None => return Err(EclipseError::NoEligibleBids(batch.0.clone())),
        };
        let ghost s = self.tickets@;
        let ghost winner = s[w as int].request.id@;
        let mut i: usize = 0;
        while i < self.tickets.len()
            invariant
                s.len() == self.tickets@.len(),
                sorted_by_key(s),
                self.tickets.wf(),
                w < s.len(),
                winner == s[w as int].request.id@,
                i <= s.len(),
                forall|j: int| 0 <= j < i ==> #[trigger] self.tickets@[j] == after_selection(s[j], batch@, winner),
                forall|j: int| i <= j < s.len() ==> #[trigger] self.tickets@[j] == s[j],
            decreases s.len() - i,
        {
            let t = self.tickets.at(i);
            if t.request.batch.0 == batch.0 {
                if i == w {
                    self.set_status_at(i, BidStatus::Selected);
                } else {
                    match t.status {
                        BidStatus::Admitted | BidStatus::Selected => {
                            proof {
                                if s[i as int].key() == s[w as int].key() {
                                    lemma_sorted_unique(s, i as int, w as int);
                                }
                            }
                            self.set_status_at(i, BidStatus::Admitted);
                        },
                        _ => {
                            proof {
                                if s[i as int].key() == s[w as int].key() {
                                    lemma_sorted_unique(s, i as int, w as int);
                                }
                            }
                        },
                    }
                }
            }
            i = i + 1;
        }
        let r = self.tickets.at(w).clone();
        proof {
            assert(is_winner(s, w as int, batch@, now));
        }
        Ok(r)
    }

    /// The index of the best live, admitted bid of `batch` other than `excluded`.
    fn fallback_index(&self, batch: &BatchId, excluded: &BidId, now: u64) -> (r: Option<usize>)
        ensures
            r is Some ==> is_fallback(self.entries(), r->Some_0 as int, batch@, excluded@, now),
            r is None ==> forall|j: int| 0 <= j < self.entries().len()
                ==> !fallback_candidate(#[trigger] self.entries()[j], batch@, excluded@, now),
    {
        let ghost s = self.tickets@;
        let mut best: Option<usize> = None;
        let mut i: usize = 0;
        while i < self.tickets.len()
            invariant
                s == self.tickets@,
                i <= s.len(),
                best is None ==> forall|j: int| 0 <= j < i ==> !fallback_candidate(#[trigger] s[j], batch@, excluded@, now),
                best is Some ==> {
                    let b = best->Some_0 as int;
                    &&& b < i
                    &&& fallback_candidate(s[b], batch@, excluded@, now)
                    &&& forall|j: int| 0 <= j < b && fallback_candidate(#[trigger] s[j], batch@, excluded@, now)
                        ==> !ranks_below_fallback(s[b], s[j])
                    &&& forall|j: int| b < j < i && fallback_candidate(#[trigger] s[j], batch@, excluded@, now)
                        ==> ranks_below_fallback(s[j], s[b])
                },
            decreases s.len() - i,
        {
            let t = self.tickets.at(i);
            if t.request.batch.0 == batch.0 && !(t.request.id.0 == excluded.0) && t.assessment.admitted && t.is_live_at(now) {
                match best {
                    None => {
                        best = Some(i);
                    },
                    Some(b) => {
                        let cur = self.tickets.at(b);
                        let below = t.score.final_score < cur.score.final_score
                            || (t.score.final_score == cur.score.final_score && t.request.received_at > cur.request.received_at);
                        if !below {
                            best = Some(i);
                        }
                    },
                }
            }
            i = i + 1;
        }
        best
    }

    /// Marks as selected the best live, admitted bid of `batch` other than `excluded`, the last in
    /// bid order among equals.
    pub fn select_next(&mut self, batch: &BatchId, excluded: &BidId, now: u64) -> (r: Result<BidTicket>)
        requires
            old(self).wf(),
        ensures
            final(self).wf(),
            (exists|i: int| 0 <= i < old(self).entries().len()
                && fallback_candidate(#[trigger] old(self).entries()[i], batch@, excluded@, now)) <==> r is Ok,
            r is Err ==> r == Err::<BidTicket, EclipseError>(EclipseError::NoEligibleBids(batch.0))
                && final(self).entries() == old(self).entries(),
            r is Ok ==> now <= r->Ok_0.request.expires_at && r->Ok_0.assessment.admitted
                && r->Ok_0.request.batch@ == batch@ && r->Ok_0.request.id@ != excluded@
                && r->Ok_0.status == BidStatus::Selected,
            r is Ok ==> exists|n: int| #[trigger] is_fallback(old(self).entries(), n, batch@, excluded@, now)
                && r->Ok_0 == (BidTicket { status: BidStatus::Selected, ..old(self).entries()[n] })
                && final(self).entries() == old(self).entries().update(n, r->Ok_0),
    {
        let n = match self.fallback_index(batch, excluded, now) {
            Some(n) => n,
            None => return Err(EclipseError::NoEligibleBids(batch.0.clone())),
        };
        let ghost s = self.tickets@;
        self.set_status_at(n, BidStatus::Selected);
        let r = self.tickets.at(n).clone();
        proof { assert(is_fallback(s, n as int, batch@, excluded@, now)); }
        Ok(r)
    }

    /// Registers a bid: a new bid id is assessed by the risk engine and scored; the ticket is
    /// admitted or rejected by that assessment, and a rejected bid that has expired is marked so.
    pub fn submit(
        &mut self,
        request: BidRequest,
        now: u64,
        assets: &AssetBook,
        accounts: &AccountBook,
        operators: &OperatorBook,
        routes: &RouteBook,
        risk: &RiskEngine,
    ) -> (r: Result<BidTicket>)
        requires
            old(self).wf(),
            assets.wf(),
            accounts.wf(),
            operators.wf(),
            routes.wf(),
            score_in_range(*old(self), request, now, *assets, *accounts, *operators, *routes, risk.config),
        ensures
            submit_outcome(*old(self), *final(self), request, now, *assets, *accounts, *operators, *routes, risk.config, r),
    {
        if self.tickets.find(request.id.as_str()).is_some() {
            return Err(EclipseError::DuplicateId(request.id.0.clone()));
        }
        let mut assessment = risk.assess_bid(
            &request.batch,
            &request.route,
            &request.operator,
            request.amount_in,
            request.price,
            request.fee_bps,
            request.guarantee_bps,
            now,
            assets,
            accounts,
            operators,
            routes,
        )?;
        let ghost a0 = assessment;
        let route = routes.get(&request.route)?;
        let route_priority = route.class.base_priority();
        proof {
            assert(assess_bid_outcome(risk.config, request.batch, request.route, request.operator, request.amount_in,
                request.price, request.fee_bps, request.guarantee_bps, now, *assets, *accounts, *operators, *routes,
                Ok::<RiskAssessment, EclipseError>(a0)));
        }
        let score = ScoreBreakdown::new(
            Amount(assessment.snapshot.projected_net_out),
            request.guarantee_bps,
            request.fee_bps,
            route_priority,
            assessment.score_penalty,
        );
        let status = if assessment.admitted { BidStatus::Admitted } else { BidStatus::Rejected };
        if !assessment.admitted && request.expires_at < now {
            let mut expired = String::new();
            push_str(&mut expired, "expired");
            assessment.reason = expired;
        }
        let reject_reason = if assessment.admitted { None } else { Some(assessment.reason.clone()) };
        let ticket = BidTicket { request, status, reject_reason, assessment, score };
        let stored = ticket.clone();
        match self.tickets.insert_new(stored) {
            Ok(()) => {},
            Err(_) => { return Err(EclipseError::DuplicateId(ticket.request.id.0.clone())); },
        }
        proof {
            assert(ticket_of(ticket, ticket.request, a0, now, route_priority));
        }
        Ok(ticket)
    }

    pub fn views(&self) -> (r: Vec<BidView>)
        ensures
            r@.len() == self.entries().len(),
            forall|i: int| 0 <= i < r@.len() ==> (#[trigger] r@[i]).describes(self.entries()[i]),
    {
        let mut out: Vec<BidView> = Vec::new();
        let mut i: usize = 0;
        while i < self.tickets.len()
            invariant
                i <= self.tickets@.len(),
                out@.len() == i,
                forall|j: int| 0 <= j < i ==> (#[trigger] out@[j]).describes(self.tickets@[j]),
            decreases self.tickets@.len() - i,
        {
            out.push(BidView::from_ticket(self.tickets.at(i)));
            i = i + 1;
        }
        out
    }
}

/// What `AuctionBook::submit` does to the book `before`, with its result.
pub open spec fn submit_outcome(before: AuctionBook, after: AuctionBook, request: BidRequest, now: u64, assets: AssetBook,
    accounts: AccountBook, operators: OperatorBook, routes: RouteBook, config: RiskConfig, r: Result<BidTicket>) -> bool {
    &&& after.wf()
    &&& r is Err ==> after.entries() == before.entries()
    &&& before.map().dom().contains(request.id@)
        ==> r == Err::<BidTicket, EclipseError>(EclipseError::DuplicateId(request.id.0))
    &&& !before.map().dom().contains(request.id@) && r is Err ==> assess_bid_outcome(config, request.batch,
        request.route, request.operator, request.amount_in, request.price, request.fee_bps, request.guarantee_bps,
        now, assets, accounts, operators, routes, Err::<RiskAssessment, EclipseError>(r->Err_0))
    &&& !before.map().dom().contains(request.id@) && r is Ok ==> exists|a: RiskAssessment| #[trigger]
        assess_bid_outcome(config, request.batch, request.route, request.operator, request.amount_in,
        request.price, request.fee_bps, request.guarantee_bps, now, assets, accounts, operators, routes,
        Ok::<RiskAssessment, EclipseError>(a))
        && ticket_of(r->Ok_0, request, a, now, class_priority(routes.map()[request.route@].class))
    &&& r is Ok ==> after.map() == before.map().insert(request.id@, r->Ok_0)
}

/// What `AuctionBook::select_winner` does to the book `before`, with its result.
pub open spec fn select_winner_outcome(before: AuctionBook, after: AuctionBook, batch: BatchId, now: u64,
    r: Result<BidTicket>) -> bool {
    &&& after.wf()
    &&& (exists|i: int| 0 <= i < before.entries().len() && competes(#[trigger] before.entries()[i], batch@, now)) <==> r is Ok
    &&& r is Err ==> r == Err::<BidTicket, EclipseError>(EclipseError::NoEligibleBids(batch.0))
        && after.entries() == before.entries()
    &&& r is Ok ==> exists|w: int| is_winner(before.entries(), w, batch@, now)
        && r->Ok_0 == (BidTicket { status: BidStatus::Selected, ..before.entries()[w] })
    &&& r is Ok ==> after.entries().len() == before.entries().len()
    &&& r is Ok ==> forall|i: int| 0 <= i < before.entries().len() ==> #[trigger] after.entries()[i]
        == after_selection(before.entries()[i], batch@, r->Ok_0.request.id@)
}

/// The bid that wins a batch at `now` is an admitted bid of that batch, still open at `now`, that
/// was admitted or selected before, and it outranks every other such bid; a batch with no such bid
/// has no winner.
pub proof fn law_winner_is_open_admitted_bid(before: AuctionBook, after: AuctionBook, batch: BatchId, now: u64,
    r: Result<BidTicket>)
    requires
        select_winner_outcome(before, after, batch, now, r),
    ensures
        r is Ok ==> ({
            let t = r->Ok_0;
            &&& now <= t.request.expires_at
            &&& t.assessment.admitted
            &&& t.request.batch@ == batch@
            &&& t.status == BidStatus::Selected
            &&& exists|w: int| 0 <= w < before.entries().len() && #[trigger] before.entries()[w].request == t.request
                && (before.entries()[w].status == BidStatus::Admitted || before.entries()[w].status == BidStatus::Selected)
                && t.score == before.entries()[w].score
                && forall|j: int| 0 <= j < before.entries().len() && j != w && {
                    let o = #[trigger] before.entries()[j];
                    o.request.batch@ == batch@ && o.assessment.admitted && now <= o.request.expires_at
                        && (o.status == BidStatus::Admitted || o.status == BidStatus::Selected)
                } ==> before.entries()[j].score.final_score <= t.score.final_score
                    && (before.entries()[j].score.final_score == t.score.final_score
                        ==> before.entries()[j].request.received_at >= t.request.received_at)
        }),
        (forall|i: int| 0 <= i < before.entries().len() ==> {
            let t = #[trigger] before.entries()[i];
            t.request.batch@ != batch@ || !t.assessment.admitted || now > t.request.expires_at
                || !(t.status == BidStatus::Admitted || t.status == BidStatus::Selected)
        }) ==> r == Err::<BidTicket, EclipseError>(EclipseError::NoEligibleBids(batch.0)),
{
    if r is Ok {
        let w = choose|w: int| is_winner(before.entries(), w, batch@, now)
            && r->Ok_0 == (BidTicket { status: BidStatus::Selected, ..before.entries()[w] });
        assert(before.entries()[w].request == r->Ok_0.request);
        assert forall|j: int| 0 <= j < before.entries().len() && j != w && {
            let o = #[trigger] before.entries()[j];
            o.request.batch@ == batch@ && o.assessment.admitted && now <= o.request.expires_at
                && (o.status == BidStatus::Admitted || o.status == BidStatus::Selected)
        } implies before.entries()[j].score.final_score <= r->Ok_0.score.final_score
            && (before.entries()[j].score.final_score == r->Ok_0.score.final_score
                ==> before.entries()[j].request.received_at >= r->Ok_0.request.received_at) by {
            assert(competes(before.entries()[j], batch@, now));
            assert(ranks_below(before.entries()[j], before.entries()[w]));
        }
    } else {
        if (forall|i: int| 0 <= i < before.entries().len() ==> {
            let t = #[trigger] before.entries()[i];
            t.request.batch@ != batch@ || !t.assessment.admitted || now > t.request.expires_at
                || !(t.status == BidStatus::Admitted || t.status == BidStatus::Selected)
        }) {
        }
    }
    if (forall|i: int| 0 <= i < before.entries().len() ==> {
        let t = #[trigger] before.entries()[i];
        t.request.batch@ != batch@ || !t.assessment.admitted || now > t.request.expires_at
            || !(t.status == BidStatus::Admitted || t.status == BidStatus::Selected)
    }) {
        assert forall|i: int| 0 <= i < before.entries().len() implies !competes(#[trigger] before.entries()[i], batch@, now) by {
            let t = before.entries()[i];
            assert(t.request.batch@ != batch@ || !t.assessment.admitted || now > t.request.expires_at
                || !(t.status == BidStatus::Admitted || t.status == BidStatus::Selected));
        }
    }
}

/// Scoring a new request stays within `i128`: for the assessment the risk engine gives it, every
/// running sum of its score fits. (A request whose id is taken is refused before it is scored.)
pub open spec fn score_in_range(book: AuctionBook, request: BidRequest, now: u64, assets: AssetBook,
    accounts: AccountBook, operators: OperatorBook, routes: RouteBook, config: RiskConfig) -> bool {
    !book.map().dom().contains(request.id@) ==> forall|a: RiskAssessment| #[trigger]
        assess_bid_outcome(config, request.batch, request.route, request.operator, request.amount_in, request.price,
            request.fee_bps, request.guarantee_bps, now, assets, accounts, operators, routes,
            Ok::<RiskAssessment, EclipseError>(a))
        ==> score_fits(a.snapshot.projected_net_out, request.guarantee_bps.0, request.fee_bps.0,
            class_priority(routes.map()[request.route@].class), a.score_penalty)
}

/// Whether every running sum of the score of these terms fits in an `i128`.
pub fn score_fits_exec(net_out: Amount, guarantee_bps: BasisPoints, fee_bps: BasisPoints, route_priority: i128,
    risk_penalty: i128) -> (r: bool)
    ensures
        r == score_fits(net_out.0, guarantee_bps.0, fee_bps.0, route_priority, risk_penalty),
{
    let a = match (net_out.0 as i128).checked_add(route_priority) {
        Some(x) => x,
        None => return false,
    };
    let b = match a.checked_add(guarantee_bps.0 as i128) {
        Some(x) => x,
        None => return false,
    };
    let c = match b.checked_sub(fee_bps.0 as i128 * 3) {
        Some(x) => x,
        None => return false,
    };
    c.checked_sub(risk_penalty).is_some()
}

/// `t` is the ticket that `submit` makes of `request` from the assessment `a` at `now`.
pub open spec fn ticket_of(t: BidTicket, request: BidRequest, a: RiskAssessment, now: u64, route_priority: i128) -> bool {
    &&& t.request == request
    &&& t.status == (if a.admitted { BidStatus::Admitted } else { BidStatus::Rejected })
    &&& t.assessment.admitted == a.admitted
    &&& t.assessment.snapshot == a.snapshot
    &&& t.assessment.score_penalty == a.score_penalty
    &&& if !a.admitted && request.expires_at < now { t.assessment.reason@ == "expired"@ } else { t.assessment.reason == a.reason }
    &&& t.reject_reason == (if a.admitted { None } else { Some(t.assessment.reason) })
    &&& t.score == (ScoreBreakdown {
        net_out: a.snapshot.projected_net_out,
        guarantee_bps: request.guarantee_bps.0,
        fee_bps: request.fee_bps.0,
        route_priority,
        risk_penalty: a.score_penalty,
        final_score: score_steps(a.snapshot.projected_net_out, request.guarantee_bps.0, request.fee_bps.0, route_priority,
            a.score_penalty).3 as i128,
    })
}

/// A new ticket is admitted exactly when its assessment admits it, and its score is its projected
/// net output plus its route's priority and its guarantee share, less three times its fee share and
/// its risk penalty (for a net output that reads as an `i128`, when every running sum fits).
pub proof fn law_ticket_score(t: BidTicket, request: BidRequest, a: RiskAssessment, now: u64, route_priority: i128)
    requires
        ticket_of(t, request, a, now, route_priority),
        score_fits(a.snapshot.projected_net_out, request.guarantee_bps.0, request.fee_bps.0, route_priority, a.score_penalty),
    ensures
        (t.status == BidStatus::Admitted) <==> a.admitted,
        t.reject_reason is None <==> a.admitted,
        a.snapshot.projected_net_out <= i128::MAX ==> t.score.final_score == a.snapshot.projected_net_out + route_priority
            + request.guarantee_bps.0 - 3 * request.fee_bps.0 - a.score_penalty,
{
}

/// What a listing shows of a bid.
#[derive(Debug, PartialEq, Eq)]
pub struct BidView {
    pub id: BidId,
    pub batch: BatchId,
    pub route: RouteId,
    pub operator: OperatorId,
    pub status: String,
    pub expected_gross: u128,
    pub expected_net: u128,
    pub required_guarantee: u128,
    pub score: i128,
    pub reject_reason: Option<String>,
}

impl Clone for BidView {
    fn clone(&self) -> (r: Self)
        ensures
            r == *self,
    {
        BidView {
            id: self.id.clone(),
            batch: self.batch.clone(),
            route: self.route.clone(),
            operator: self.operator.clone(),
            status: self.status.clone(),
            expected_gross: self.expected_gross,
            expected_net: self.expected_net,
            required_guarantee: self.required_guarantee,
            score: self.score,
            reject_reason: match &self.reject_reason {
                Some(s) => Some(s.clone()),
                None => None,
            },
        }
    }
}

impl BidView {
    pub open spec fn describes(&self, t: BidTicket) -> bool {
        &&& self.id == t.request.id
        &&& self.batch == t.request.batch
        &&& self.route == t.request.route
        &&& self.operator == t.request.operator
        &&& self.status@ == bid_status_name(t.status)
        &&& self.expected_gross == t.assessment.snapshot.projected_gross_out
        &&& self.expected_net == t.assessment.snapshot.projected_net_out
        &&& self.required_guarantee == t.assessment.snapshot.required_guarantee
        &&& self.score == t.score.final_score
        &&& self.reject_reason == t.reject_reason
    }

    pub fn from_ticket(value: &BidTicket) -> (r: BidView)
        ensures
            r.describes(*value),
    {
        BidView {
            id: value.request.id.clone(),
            batch: value.request.batch.clone(),
            route: value.request.route.clone(),
            operator: value.request.operator.clone(),
            status: value.status.as_str().to_owned(),
            expected_gross: value.assessment.snapshot.projected_gross_out,
            expected_net: value.assessment.snapshot.projected_net_out,
            required_guarantee: value.assessment.snapshot.required_guarantee,
            score: value.score.final_score,
            reject_reason: match &value.reject_reason {
                Some(s) => Some(s.clone()),
                None => None,
            },
        }
    }
}

} // verus!
