use crate::amount::Amount;
use crate::auction::BidTicket;
use crate::error::{EclipseError, Result};
use crate::ids::{AccountId, AssetId, BatchId, BidId};
use crate::store::{lemma_store_map_index, store_map, Keyed, KeyedStore};
use crate::text::push_str;
use vstd::prelude::*;

verus! {

#[derive(Debug, Clone, Copy, PartialEq, Eq, Structural)]
pub enum BatchStatus {
    Open,
    Selected,
    Settled,
    Cancelled,
    Failed,
}

pub open spec fn batch_status_name(status: BatchStatus) -> Seq<char> {
    match status {
        BatchStatus::Open => "open"@,
        BatchStatus::Selected => "selected"@,
        BatchStatus::Settled => "settled"@,
        BatchStatus::Cancelled => "cancelled"@,
        BatchStatus::Failed => "failed"@,
    }
}

/// A batch in this status takes no further action.
pub open spec fn batch_terminal(status: BatchStatus) -> bool {
    status == BatchStatus::Settled || status == BatchStatus::Cancelled || status == BatchStatus::Failed
}

impl BatchStatus {
    pub fn as_str(&self) -> (r: &'static str)
        ensures
            r@ == batch_status_name(*self),
    {
        match self {
            BatchStatus::Open => "open",
            BatchStatus::Selected => "selected",
            BatchStatus::Settled => "settled",
            BatchStatus::Cancelled => "cancelled",
            BatchStatus::Failed => "failed",
        }
    }

    pub fn is_terminal(&self) -> (r: bool)
        ensures
            r == batch_terminal(*self),
    {
        match self {
            BatchStatus::Settled | BatchStatus::Cancelled | BatchStatus::Failed => true,
            _ => false,
        }
    }
}

/// A payer's request to convert `amount_in` of `source` into at least `min_out` of `target`.
#[derive(Debug, PartialEq, Eq)]
pub struct BatchOrder {
    pub id: BatchId,
    pub payer: AccountId,
    pub recipient: AccountId,
    pub source: AssetId,
    pub target: AssetId,
    pub amount_in: Amount,
    pub min_out: Amount,
    pub opened_at: u64,
    pub deadline: u64,
    pub allow_fallback: bool,
    pub memo: String,
}

impl Clone for BatchOrder {
    fn clone(&self) -> (r: Self)
        ensures
            r == *self,
    {
        BatchOrder {
            id: self.id.clone(),
            payer: self.payer.clone(),
            recipient: self.recipient.clone(),
            source: self.source.clone(),
            target: self.target.clone(),
            amount_in: self.amount_in,
            min_out: self.min_out,
            opened_at: self.opened_at,
            deadline: self.deadline,
            allow_fallback: self.allow_fallback,
            memo: self.memo.clone(),
        }
    }
}

impl BatchOrder {
    /// An order without fallback and with an empty memo.
    pub fn new(
        id: BatchId,
        payer: AccountId,
        recipient: AccountId,
        source: AssetId,
        target: AssetId,
        amount_in: Amount,
        min_out: Amount,
        opened_at: u64,
        deadline: u64,
    ) -> (r: BatchOrder)
        ensures
            r.id == id && r.payer == payer && r.recipient == recipient && r.source == source && r.target == target,
            r.amount_in == amount_in && r.min_out == min_out && r.opened_at == opened_at && r.deadline == deadline,
            !r.allow_fallback,
            r.memo@ == Seq::<char>::empty(),
    {
        BatchOrder {
            id,
            payer,
            recipient,
            source,
            target,
            amount_in,
            min_out,
            opened_at,
            deadline,
            allow_fallback: false,
            memo: String::new(),
        }
    }

    pub fn with_fallback(self, allow_fallback: bool) -> (r: BatchOrder)
        ensures
            r == (BatchOrder { allow_fallback, ..self }),
    {
        let mut order = self;
        order.allow_fallback = allow_fallback;
        order
    }

    pub fn with_memo(self, memo: &str) -> (r: BatchOrder)
        ensures
            r.memo@ == memo@,
            r == (BatchOrder { memo: r.memo, ..self }),
    {
        let mut order = self;
        order.memo = memo.to_owned();
        order
    }

    pub fn is_live_at(&self, now: u64) -> (r: bool)
        ensures
            r == (now <= self.deadline),
    {
        now <= self.deadline
    }
}

/// An order with the state of its auction and settlement.
#[derive(Debug, PartialEq, Eq)]
pub struct BatchRecord {
    pub order: BatchOrder,
    pub status: BatchStatus,
    pub selected_bid: Option<BidId>,
    pub fallback_bid: Option<BidId>,
    pub closed_at: Option<u64>,
    pub fail_reason: Option<String>,
}

impl Clone for BatchRecord {
    fn clone(&self) -> (r: Self)
        ensures
            r == *self,
    {
        BatchRecord {
            order: self.order.clone(),
            status: self.status,
            selected_bid: match &self.selected_bid {
                Some(b) => Some(b.clone()),
                None => None,
            },
            fallback_bid: match &self.fallback_bid {
                Some(b) => Some(b.clone()),
                None => None,
            },
            closed_at: self.closed_at,
            fail_reason: match &self.fail_reason {
                Some(s) => Some(s.clone()),
                None => None,
            },
        }
    }
}

impl Keyed for BatchRecord {
    open spec fn key(&self) -> Seq<char> {
        self.order.id@
    }

    fn key_str(&self) -> (r: &str) {
        self.order.id.as_str()
    }
}

/// The message with which a batch refuses a bid of another batch.
pub open spec fn foreign_bid_message(bid: Seq<char>, batch: Seq<char>) -> Seq<char> {
    "bid "@ + bid + " belongs to batch "@ + batch
}

/// What `select` makes of a record: a refusal when the batch is closed or the ticket belongs to
/// another batch, else the ticket becomes the selected bid.
pub open spec fn select_effect(before: BatchRecord, after: BatchRecord, ticket: BidTicket, r: Result<()>) -> bool {
    if batch_terminal(before.status) {
        r == Err::<(), EclipseError>(EclipseError::BatchClosed(before.order.id.0)) && after == before
    } else if ticket.request.batch@ != before.order.id@ {
        r matches Err(EclipseError::InvalidScenario(m)) && m@ == foreign_bid_message(ticket.request.id@, ticket.request.batch@)
            && after == before
    } else {
        r is Ok && after == (BatchRecord { selected_bid: Some(ticket.request.id), status: BatchStatus::Selected, ..before })
    }
}

/// What `set_fallback` makes of a record.
pub open spec fn fallback_effect(before: BatchRecord, after: BatchRecord, ticket: BidTicket, r: Result<()>) -> bool {
    if batch_terminal(before.status) {
        r == Err::<(), EclipseError>(EclipseError::BatchClosed(before.order.id.0)) && after == before
    } else {
        r is Ok && after == (BatchRecord { fallback_bid: Some(ticket.request.id), status: BatchStatus::Selected, ..before })
    }
}

/// A batch closed as settled, failed or cancelled stays closed: choosing a bid or a fallback for it
/// afterwards is refused with `BatchClosed` and leaves the record as it was.
pub proof fn law_closed_batch_stays_closed(closed: BatchRecord, after: BatchRecord, ticket: BidTicket, r: Result<()>,
    fallback: bool)
    requires
        closed.status == BatchStatus::Settled || closed.status == BatchStatus::Failed
            || closed.status == BatchStatus::Cancelled,
        if fallback { fallback_effect(closed, after, ticket, r) } else { select_effect(closed, after, ticket, r) },
    ensures
        r == Err::<(), EclipseError>(EclipseError::BatchClosed(closed.order.id.0)),
        after == closed,
{
}

impl BatchRecord {
    pub fn new(order: BatchOrder) -> (r: BatchRecord)
        ensures
            r == (BatchRecord {
                order,
                status: BatchStatus::Open,
                selected_bid: None,
                fallback_bid: None,
                closed_at: None,
                fail_reason: None,
            }),
    {
        BatchRecord { order, status: BatchStatus::Open, selected_bid: None, fallback_bid: None, closed_at: None, fail_reason: None }
    }

    pub fn ensure_open(&self) -> (r: Result<()>)
        ensures
            !batch_terminal(self.status) ==> r is Ok,
            batch_terminal(self.status) ==> r == Err::<(), EclipseError>(EclipseError::BatchClosed(self.order.id.0)),
    {
        if self.status.is_terminal() {
            return Err(EclipseError::BatchClosed(self.order.id.0.clone()));
        }
        Ok(())
    }

    pub fn select(&mut self, ticket: &BidTicket) -> (r: Result<()>)
        ensures
            select_effect(*old(self), *final(self), *ticket, r),
    {
        self.ensure_open()?;
        if !(ticket.request.batch.0 == self.order.id.0) {
            let mut m = String::new();
            push_str(&mut m, "bid ");
            push_str(&mut m, ticket.request.id.as_str());
            push_str(&mut m, " belongs to batch ");
            push_str(&mut m, ticket.request.batch.as_str());
            return Err(EclipseError::InvalidScenario(m));
        }
        self.selected_bid = Some(ticket.request.id.clone());
        self.status = BatchStatus::Selected;
        Ok(())
    }

    pub fn set_fallback(&mut self, ticket: &BidTicket) -> (r: Result<()>)
        ensures
            fallback_effect(*old(self), *final(self), *ticket, r),
    {
        self.ensure_open()?;
        self.fallback_bid = Some(ticket.request.id.clone());
        self.status = BatchStatus::Selected;
        Ok(())
    }

    pub fn close_settled(&mut self, now: u64)
        ensures
            *final(self) == (BatchRecord { status: BatchStatus::Settled, closed_at: Some(now), ..*old(self) }),
    {
        self.status = BatchStatus::Settled;
        self.closed_at = Some(now);
    }

    pub fn close_failed(&mut self, now: u64, reason: &str)
        ensures
            final(self).fail_reason is Some && final(self).fail_reason->Some_0@ == reason@,
            *final(self) == (BatchRecord {
                status: BatchStatus::Failed,
                closed_at: Some(now),
                fail_reason: final(self).fail_reason,
                ..*old(self)
            }),
    {
        self.status = BatchStatus::Failed;
        self.closed_at = Some(now);
        self.fail_reason = Some(reason.to_owned());
    }

    pub fn cancel(&mut self, now: u64, reason: &str)
        ensures
            final(self).fail_reason is Some && final(self).fail_reason->Some_0@ == reason@,
            *final(self) == (BatchRecord {
                status: BatchStatus::Cancelled,
                closed_at: Some(now),
                fail_reason: final(self).fail_reason,
                ..*old(self)
            }),
    {
        self.status = BatchStatus::Cancelled;
        self.closed_at = Some(now);
        self.fail_reason = Some(reason.to_owned());
    }
}

/// The batches, keyed and ordered by batch id.
#[derive(Clone, Debug)]
pub struct BatchBook {
    pub batches: KeyedStore<BatchRecord>,
}

impl Default for BatchBook {
    fn default() -> (r: BatchBook)
        ensures
            r.wf(),
            r.entries() == Seq::<BatchRecord>::empty(),
    {
        BatchBook::new()
    }
}

impl BatchBook {
    pub open spec fn entries(&self) -> Seq<BatchRecord> {
        self.batches@
    }

    pub open spec fn wf(&self) -> bool {
        self.batches.wf()
    }

    pub open spec fn map(&self) -> Map<Seq<char>, BatchRecord> {
        self.batches.map()
    }

    /// Only the record of `id` may differ from `before`, and it keeps its order.
    pub open spec fn changed_only(&self, before: BatchBook, id: Seq<char>) -> bool {
        &&& self.map() == before.map().insert(id, self.map()[id])
        &&& self.map()[id].order == before.map()[id].order
    }

    pub fn new() -> (r: BatchBook)
        ensures
            r.wf(),
            r.entries() == Seq::<BatchRecord>::empty(),
    {
        BatchBook { batches: KeyedStore::new() }
    }

    /// Opens a batch for `order`; its id must be new.
    pub fn insert(&mut self, order: BatchOrder) -> (r: Result<()>)
        requires
            old(self).wf(),
        ensures
            final(self).wf(),
            old(self).map().dom().contains(order.id@) ==> r == Err::<(), EclipseError>(EclipseError::DuplicateId(order.id.0))
                && final(self).entries() == old(self).entries(),
            !old(self).map().dom().contains(order.id@) ==> r is Ok
                && final(self).map() == old(self).map().insert(order.id@, BatchRecord {
                    order,
                    status: BatchStatus::Open,
                    selected_bid: None,
                    fallback_bid: None,
                    closed_at: None,
                    fail_reason: None,
                }),
    {
        let id = order.id.0.clone();
        match self.batches.insert_new(BatchRecord::new(order)) {
            Ok(()) => Ok(()),
            Err(_) => Err(EclipseError::DuplicateId(id)),
        }
    }

    /// The record under `id`, to be changed in place. A change that keeps its identifier keeps the
    /// book well formed and replaces that record in it.
    pub fn get_mut(&mut self, id: &BatchId) -> (r: Result<&mut BatchRecord>)
        requires
            old(self).wf(),
        ensures
            !old(self).map().dom().contains(id@) ==> r == Err::<&mut BatchRecord, EclipseError>(EclipseError::BatchNotFound(id.0))
                && *final(self) == *old(self),
            old(self).map().dom().contains(id@) ==> r is Ok && *r->Ok_0 == old(self).map()[id@],
            r is Ok && final(r->Ok_0).key() == id@ ==> final(self).wf()
                && final(self).map() == old(self).map().insert(id@, *final(r->Ok_0)),
    {
        match self.batches.get_mut(id.as_str()) {
            Some(v) => Ok(v),
            None => Err(EclipseError::BatchNotFound(id.0.clone())),
        }
    }

    pub fn get(&self, id: &BatchId) -> (r: Result<&BatchRecord>)
        requires
            self.wf(),
        ensures
            self.map().dom().contains(id@) ==> r is Ok && *r->Ok_0 == self.map()[id@],
            !self.map().dom().contains(id@) ==> r == Err::<&BatchRecord, EclipseError>(EclipseError::BatchNotFound(id.0)),
    {
        match self.batches.find(id.as_str()) {
            Some(i) => {
                proof { lemma_store_map_index(self.batches@, i as int); }
                Ok(self.batches.at(i))
            },
            None => Err(EclipseError::BatchNotFound(id.0.clone())),
        }
    }

    pub fn order(&self, id: &BatchId) -> (r: Result<&BatchOrder>)
        requires
            self.wf(),
        ensures
            self.map().dom().contains(id@) ==> r is Ok && *r->Ok_0 == self.map()[id@].order,
            !self.map().dom().contains(id@) ==> r == Err::<&BatchOrder, EclipseError>(EclipseError::BatchNotFound(id.0)),
    {
        Ok(&self.get(id)?.order)
    }

    pub fn select(&mut self, id: &BatchId, ticket: &BidTicket) -> (r: Result<()>)
        requires
            old(self).wf(),
        ensures
            batch_select_outcome(*old(self), *final(self), *id, *ticket, r),
    {
        match self.batches.find(id.as_str()) {
            Some(i) => {
                let ghost before = self.batches@;
                proof { lemma_store_map_index(before, i as int); }
                let mut record = self.batches.take(i);
                let r = record.select(ticket);
                self.batches.put_back(i, record, Ghost(before));
                proof {
                    lemma_store_map_index(self.batches@, i as int);
                    if r is Err { assert(before.update(i as int, before[i as int]) =~= before); }
                }
                r
            },
            None => Err(EclipseError::BatchNotFound(id.0.clone())),
        }
    }

    pub fn set_fallback(&mut self, id: &BatchId, ticket: &BidTicket) -> (r: Result<()>)
        requires
            old(self).wf(),
        ensures
            final(self).wf(),
            !old(self).map().dom().contains(id@) ==> r == Err::<(), EclipseError>(EclipseError::BatchNotFound(id.0))
                && final(self).entries() == old(self).entries(),
            old(self).map().dom().contains(id@) ==> final(self).changed_only(*old(self), id@)
                && fallback_effect(old(self).map()[id@], final(self).map()[id@], *ticket, r),
            r is Err ==> final(self).entries() == old(self).entries(),
    {
        match self.batches.find(id.as_str()) {
            Some(i) => {
                let ghost before = self.batches@;
                proof { lemma_store_map_index(before, i as int); }
                let mut record = self.batches.take(i);
                let r = record.set_fallback(ticket);
                self.batches.put_back(i, record, Ghost(before));
                proof {
                    lemma_store_map_index(self.batches@, i as int);
                    if r is Err { assert(before.update(i as int, before[i as int]) =~= before); }
                }
                r
            },
            None => Err(EclipseError::BatchNotFound(id.0.clone())),
        }
    }

    pub fn close_settled(&mut self, id: &BatchId, now: u64) -> (r: Result<()>)
        requires
            old(self).wf(),
        ensures
            final(self).wf(),
            !old(self).map().dom().contains(id@) ==> r == Err::<(), EclipseError>(EclipseError::BatchNotFound(id.0))
                && final(self).entries() == old(self).entries(),
            old(self).map().dom().contains(id@) ==> r is Ok && final(self).map() == old(self).map().insert(id@,
                BatchRecord { status: BatchStatus::Settled, closed_at: Some(now), ..old(self).map()[id@] }),
    {
        match self.batches.find(id.as_str()) {
            Some(i) => {
                let ghost before = self.batches@;
                proof { lemma_store_map_index(before, i as int); }
                let mut record = self.batches.take(i);
                record.close_settled(now);
                self.batches.put_back(i, record, Ghost(before));
                Ok(())
            },
            None => Err(EclipseError::BatchNotFound(id.0.clone())),
        }
    }

    pub fn close_failed(&mut self, id: &BatchId, now: u64, reason: &str) -> (r: Result<()>)
        requires
            old(self).wf(),
        ensures
            final(self).wf(),
            !old(self).map().dom().contains(id@) ==> r == Err::<(), EclipseError>(EclipseError::BatchNotFound(id.0))
                && final(self).entries() == old(self).entries(),
            old(self).map().dom().contains(id@) ==> r is Ok && final(self).changed_only(*old(self), id@)
                && final(self).map()[id@].fail_reason is Some && final(self).map()[id@].fail_reason->Some_0@ == reason@
                && final(self).map()[id@] == (BatchRecord {
                    status: BatchStatus::Failed,
                    closed_at: Some(now),
                    fail_reason: final(self).map()[id@].fail_reason,
                    ..old(self).map()[id@]
                }),
    {
        match self.batches.find(id.as_str()) {
            Some(i) => {
                let ghost before = self.batches@;
                proof { lemma_store_map_index(before, i as int); }
                let mut record = self.batches.take(i);
                record.close_failed(now, reason);
                self.batches.put_back(i, record, Ghost(before));
                proof { lemma_store_map_index(self.batches@, i as int); }
                Ok(())
            },
            None => Err(EclipseError::BatchNotFound(id.0.clone())),
        }
    }

    pub fn cancel(&mut self, id: &BatchId, now: u64, reason: &str) -> (r: Result<()>)
        requires
            old(self).wf(),
        ensures
            final(self).wf(),
            !old(self).map().dom().contains(id@) ==> r == Err::<(), EclipseError>(EclipseError::BatchNotFound(id.0))
                && final(self).entries() == old(self).entries(),
            old(self).map().dom().contains(id@) ==> r is Ok && final(self).changed_only(*old(self), id@)
                && final(self).map()[id@].fail_reason is Some && final(self).map()[id@].fail_reason->Some_0@ == reason@
                && final(self).map()[id@] == (BatchRecord {
                    status: BatchStatus::Cancelled,
                    closed_at: Some(now),
                    fail_reason: final(self).map()[id@].fail_reason,
                    ..old(self).map()[id@]
                }),
    {
        match self.batches.find(id.as_str()) {
            Some(i) => {
                let ghost before = self.batches@;
                proof { lemma_store_map_index(before, i as int); }
                let mut record = self.batches.take(i);
                record.cancel(now, reason);
                self.batches.put_back(i, record, Ghost(before));
                proof { lemma_store_map_index(self.batches@, i as int); }
                Ok(())
            },
            None => Err(EclipseError::BatchNotFound(id.0.clone())),
        }
    }

    pub fn views(&self) -> (r: Vec<BatchView>)
        ensures
            r@.len() == self.entries().len(),
            forall|i: int| 0 <= i < r@.len() ==> (#[trigger] r@[i]).describes(self.entries()[i]),
    {
        let mut out: Vec<BatchView> = Vec::new();
        let mut i: usize = 0;
        while i < self.batches.len()
            invariant
                i <= self.batches@.len(),
                out@.len() == i,
                forall|j: int| 0 <= j < i ==> (#[trigger] out@[j]).describes(self.batches@[j]),
            decreases self.batches@.len() - i,
        {
            out.push(BatchView::from_record(self.batches.at(i)));
            i = i + 1;
        }
        out
    }
}

/// What `BatchBook::select` does to the book `before`, with its result.
pub open spec fn batch_select_outcome(before: BatchBook, after: BatchBook, id: BatchId, ticket: BidTicket, r: Result<()>) -> bool {
    &&& after.wf()
    &&& !before.map().dom().contains(id@) ==> r == Err::<(), EclipseError>(EclipseError::BatchNotFound(id.0))
        && after.entries() == before.entries()
    &&& before.map().dom().contains(id@) ==> after.changed_only(before, id@)
        && select_effect(before.map()[id@], after.map()[id@], ticket, r)
    &&& r is Err ==> after.entries() == before.entries()
}

/// What a listing shows of a batch.
#[derive(Debug, PartialEq, Eq)]
pub struct BatchView {
    pub id: BatchId,
    pub payer: AccountId,
    pub recipient: AccountId,
    pub source: AssetId,
    pub target: AssetId,
    pub amount_in: u128,
    pub min_out: u128,
    pub status: String,
    pub selected_bid: Option<BidId>,
    pub fallback_bid: Option<BidId>,
    pub opened_at: u64,
    pub deadline: u64,
    pub closed_at: Option<u64>,
    pub fail_reason: Option<String>,
}

impl Clone for BatchView {
    fn clone(&self) -> (r: Self)
        ensures
            r == *self,
    {
        BatchView {
            id: self.id.clone(),
            payer: self.payer.clone(),
            recipient: self.recipient.clone(),
            source: self.source.clone(),
            target: self.target.clone(),
            amount_in: self.amount_in,
            min_out: self.min_out,
            status: self.status.clone(),
            selected_bid: match &self.selected_bid {
                Some(b) => Some(b.clone()),
                None => None,
            },
            fallback_bid: match &self.fallback_bid {
                Some(b) => Some(b.clone()),
                None => None,
            },
            opened_at: self.opened_at,
            deadline: self.deadline,
            closed_at: self.closed_at,
            fail_reason: match &self.fail_reason {
                Some(s) => Some(s.clone()),
                None => None,
            },
        }
    }
}

impl BatchView {
    pub open spec fn describes(&self, r: BatchRecord) -> bool {
        &&& self.id == r.order.id
        &&& self.payer == r.order.payer
        &&& self.recipient == r.order.recipient
        &&& self.source == r.order.source
        &&& self.target == r.order.target
        &&& self.amount_in == r.order.amount_in.0
        &&& self.min_out == r.order.min_out.0
        &&& self.status@ == batch_status_name(r.status)
        &&& self.selected_bid == r.selected_bid
        &&& self.fallback_bid == r.fallback_bid
        &&& self.opened_at == r.order.opened_at
        &&& self.deadline == r.order.deadline
        &&& self.closed_at == r.closed_at
        &&& self.fail_reason == r.fail_reason
    }

    pub fn from_record(value: &BatchRecord) -> (r: BatchView)
        ensures
            r.describes(*value),
    {
        let copy = value.clone();
        BatchView {
            id: copy.order.id,
            payer: copy.order.payer,
            recipient: copy.order.recipient,
            source: copy.order.source,
            target: copy.order.target,
            amount_in: value.order.amount_in.raw(),
            min_out: value.order.min_out.raw(),
            status: value.status.as_str().to_owned(),
            selected_bid: copy.selected_bid,
            fallback_bid: copy.fallback_bid,
            opened_at: value.order.opened_at,
            deadline: value.order.deadline,
            closed_at: value.closed_at,
            fail_reason: copy.fail_reason,
        }
    }
}

} // verus!
