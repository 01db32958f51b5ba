use crate::ids::{AccountId, AssetId, BatchId, BidId, OperatorId, RouteId};
use crate::text::compare_str;
use vstd::prelude::*;

verus! {

/// Something that happened in the engine, in the order in which it happened.
#[derive(Debug, PartialEq, Eq)]
pub enum Event {
    AssetRegistered {
        asset: AssetId,
        symbol: String,
    },
    AccountCreated {
        account: AccountId,
        role: String,
    },
    Deposit {
        account: AccountId,
        asset: AssetId,
        amount: u128,
    },
    Withdrawal {
        account: AccountId,
        asset: AssetId,
        amount: u128,
    },
    OperatorRegistered {
        operator: OperatorId,
        lane: String,
    },
    GuaranteePledged {
        operator: OperatorId,
        amount: u128,
    },
    OperatorCommitment {
        operator: OperatorId,
        route: RouteId,
        amount: u128,
        label: String,
    },
    RouteRegistered {
        route: RouteId,
        source: AssetId,
        target: AssetId,
    },
    BatchOpened {
        batch: BatchId,
        source: AssetId,
        target: AssetId,
        amount_in: u128,
        min_out: u128,
    },
    BidSubmitted {
        bid: BidId,
        batch: BatchId,
        route: RouteId,
        operator: OperatorId,
        expected_net: u128,
    },
    BidSelected {
        batch: BatchId,
        bid: BidId,
        operator: OperatorId,
        score: i128,
    },
    SettlementCompleted {
        batch: BatchId,
        bid: BidId,
        operator: OperatorId,
        route: RouteId,
        gross_out: u128,
        net_out: u128,
        operator_fee: u128,
    },
    SettlementFallback {
        batch: BatchId,
        from_bid: BidId,
        to_bid: BidId,
        reason: String,
    },
    BatchClosed {
        batch: BatchId,
        status: String,
    },
    Snapshot {
        name: String,
    },
}

impl Clone for Event {
    fn clone(&self) -> (r: Self)
        ensures
            r == *self,
    {
        match self {
            Event::AssetRegistered { asset, symbol } => Event::AssetRegistered { asset: asset.clone(), symbol: symbol.clone() },
            Event::AccountCreated { account, role } => Event::AccountCreated { account: account.clone(), role: role.clone() },
            Event::Deposit { account, asset, amount } => Event::Deposit { account: account.clone(), asset: asset.clone(), amount: *amount },
            Event::Withdrawal { account, asset, amount } => Event::Withdrawal { account: account.clone(), asset: asset.clone(), amount: *amount },
            Event::OperatorRegistered { operator, lane } => Event::OperatorRegistered { operator: operator.clone(), lane: lane.clone() },
            Event::GuaranteePledged { operator, amount } => Event::GuaranteePledged { operator: operator.clone(), amount: *amount },
            Event::OperatorCommitment { operator, route, amount, label } => Event::OperatorCommitment { operator: operator.clone(), route: route.clone(), amount: *amount, label: label.clone() },
            Event::RouteRegistered { route, source, target } => Event::RouteRegistered { route: route.clone(), source: source.clone(), target: target.clone() },
            Event::BatchOpened { batch, source, target, amount_in, min_out } => Event::BatchOpened { batch: batch.clone(), source: source.clone(), target: target.clone(), amount_in: *amount_in, min_out: *min_out },
            Event::BidSubmitted { bid, batch, route, operator, expected_net } => Event::BidSubmitted { bid: bid.clone(), batch: batch.clone(), route: route.clone(), operator: operator.clone(), expected_net: *expected_net },
            Event::BidSelected { batch, bid, operator, score } => Event::BidSelected { batch: batch.clone(), bid: bid.clone(), operator: operator.clone(), score: *score },
            Event::SettlementCompleted { batch, bid, operator, route, gross_out, net_out, operator_fee } => Event::SettlementCompleted { batch: batch.clone(), bid: bid.clone(), operator: operator.clone(), route: route.clone(), gross_out: *gross_out, net_out: *net_out, operator_fee: *operator_fee },
            Event::SettlementFallback { batch, from_bid, to_bid, reason } => Event::SettlementFallback { batch: batch.clone(), from_bid: from_bid.clone(), to_bid: to_bid.clone(), reason: reason.clone() },
            Event::BatchClosed { batch, status } => Event::BatchClosed { batch: batch.clone(), status: status.clone() },
            Event::Snapshot { name } => Event::Snapshot { name: name.clone() },
        }
    }
}

/// The topic under which an event is filed.
pub open spec fn event_topic(e: Event) -> Seq<char> {
    match e {
        Event::AssetRegistered { .. } => "asset"@,
        Event::AccountCreated { .. } => "account"@,
        Event::Deposit { .. } => "balance"@,
        Event::Withdrawal { .. } => "balance"@,
        Event::OperatorRegistered { .. } => "operator"@,
        Event::GuaranteePledged { .. } => "operator"@,
        Event::OperatorCommitment { .. } => "operator"@,
        Event::RouteRegistered { .. } => "route"@,
        Event::BatchOpened { .. } => "batch"@,
        Event::BidSubmitted { .. } => "auction"@,
        Event::BidSelected { .. } => "auction"@,
        Event::SettlementCompleted { .. } => "settlement"@,
        Event::SettlementFallback { .. } => "settlement"@,
        Event::BatchClosed { .. } => "batch"@,
        Event::Snapshot { .. } => "snapshot"@,
    }
}

/// The batch an event concerns, if any.
pub open spec fn event_batch(e: Event) -> Option<BatchId> {
    match e {
        Event::BatchOpened { batch, .. } => Some(batch),
        Event::BidSubmitted { batch, .. } => Some(batch),
        Event::BidSelected { batch, .. } => Some(batch),
        Event::SettlementCompleted { batch, .. } => Some(batch),
        Event::SettlementFallback { batch, .. } => Some(batch),
        Event::BatchClosed { batch, .. } => Some(batch),
        _ => None,
    }
}

impl Event {
    pub fn topic(&self) -> (r: &'static str)
        ensures
            r@ == event_topic(*self),
    {
        match self {
            Event::AssetRegistered { .. } => "asset",
            Event::AccountCreated { .. } => "account",
            Event::Deposit { .. } => "balance",
            Event::Withdrawal { .. } => "balance",
            Event::OperatorRegistered { .. } => "operator",
            Event::GuaranteePledged { .. } => "operator",
            Event::OperatorCommitment { .. } => "operator",
            Event::RouteRegistered { .. } => "route",
            Event::BatchOpened { .. } => "batch",
            Event::BidSubmitted { .. } => "auction",
            Event::BidSelected { .. } => "auction",
            Event::SettlementCompleted { .. } => "settlement",
            Event::SettlementFallback { .. } => "settlement",
            Event::BatchClosed { .. } => "batch",
            Event::Snapshot { .. } => "snapshot",
        }
    }

    pub fn batch_id(&self) -> (r: Option<&BatchId>)
        ensures
            r is Some <==> event_batch(*self) is Some,
            r is Some ==> *r->Some_0 == event_batch(*self)->Some_0,
    {
        match self {
            Event::BatchOpened { batch, .. } => Some(batch),
            Event::BidSubmitted { batch, .. } => Some(batch),
            Event::BidSelected { batch, .. } => Some(batch),
            Event::SettlementCompleted { batch, .. } => Some(batch),
            Event::SettlementFallback { batch, .. } => Some(batch),
            Event::BatchClosed { batch, .. } => Some(batch),
            _ => None,
        }
    }
}

/// The events with topic `topic`, in order.
pub open spec fn events_on_topic(s: Seq<Event>, topic: Seq<char>) -> Seq<Event>
    decreases s.len(),
{
    if s.len() == 0 {
        Seq::empty()
    } else if event_topic(s.last()) == topic {
        events_on_topic(s.drop_last(), topic).push(s.last())
    } else {
        events_on_topic(s.drop_last(), topic)
    }
}

/// The events about batch `batch`, in order.
pub open spec fn events_on_batch(s: Seq<Event>, batch: Seq<char>) -> Seq<Event>
    decreases s.len(),
{
    if s.len() == 0 {
        Seq::empty()
    } else if event_batch(s.last()) is Some && event_batch(s.last())->Some_0@ == batch {
        events_on_batch(s.drop_last(), batch).push(s.last())
    } else {
        events_on_batch(s.drop_last(), batch)
    }
}

/// The events recorded so far, oldest first.
#[derive(Clone, Debug, Default)]
pub struct EventLog {
    pub events: Vec<Event>,
}

impl EventLog {
    pub fn new() -> (r: EventLog)
        ensures
            r.events@ == Seq::<Event>::empty(),
    {
        EventLog { events: Vec::new() }
    }

    pub fn push(&mut self, event: Event)
        ensures
            final(self).events@ == old(self).events@.push(event),
    {
        self.events.push(event);
    }

    pub fn extend(&mut self, events: Vec<Event>)
        ensures
            final(self).events@ == old(self).events@ + events@,
    {
        let mut more = events;
        self.events.append(&mut more);
    }

    /// The events, oldest first.
    pub fn iter(&self) -> (r: &[Event])
        ensures
            r@ == self.events@,
    {
        self.events.as_slice()
    }

    pub fn into_vec(self) -> (r: Vec<Event>)
        ensures
            r@ == self.events@,
    {
        self.events
    }

    pub fn to_vec(&self) -> (r: Vec<Event>)
        ensures
            r@ == self.events@,
    {
        let mut out: Vec<Event> = Vec::new();
        let mut i: usize = 0;
        while i < self.events.len()
            invariant
                i <= self.events@.len(),
                out@ == self.events@.take(i as int),
            decreases self.events@.len() - i,
        {
            out.push(self.events[i].clone());
            proof { assert(self.events@.take(i + 1) == self.events@.take(i as int).push(self.events@[i as int])); }
            i = i + 1;
        }
        proof { assert(self.events@.take(i as int) == self.events@); }
        out
    }

    pub fn len(&self) -> (r: usize)
        ensures
            r == self.events@.len(),
    {
        self.events.len()
    }

    pub fn is_empty(&self) -> (r: bool)
        ensures
            r == (self.events@.len() == 0),
    {
        self.events.len() == 0
    }

    pub fn by_topic(&self, topic: &str) -> (r: Vec<&Event>)
        ensures
            r@.len() == events_on_topic(self.events@, topic@).len(),
            forall|i: int| 0 <= i < r@.len() ==> *#[trigger] r@[i] == events_on_topic(self.events@, topic@)[i],
    {
        let mut out: Vec<&Event> = Vec::new();
        let ghost mut g: Seq<Event> = Seq::empty();
        let mut i: usize = 0;
        while i < self.events.len()
            invariant
                i <= self.events@.len(),
                g == events_on_topic(self.events@.take(i as int), topic@),
                out@.len() == g.len(),
                forall|j: int| 0 <= j < out@.len() ==> *#[trigger] out@[j] == g[j],
            decreases self.events@.len() - i,
        {
            proof { assert(self.events@.take(i + 1).drop_last() == self.events@.take(i as int)); }
            let e = &self.events[i];
            if compare_str(e.topic(), topic) == 0 {
                out.push(e);
                proof { g = g.push(*e); }
            }
            i = i + 1;
        }
        proof { assert(self.events@.take(i as int) == self.events@); }
        out
    }

    pub fn by_batch(&self, batch: &BatchId) -> (r: Vec<&Event>)
        ensures
            r@.len() == events_on_batch(self.events@, batch@).len(),
            forall|i: int| 0 <= i < r@.len() ==> *#[trigger] r@[i] == events_on_batch(self.events@, batch@)[i],
    {
        let mut out: Vec<&Event> = Vec::new();
        let ghost mut g: Seq<Event> = Seq::empty();
        let mut i: usize = 0;
        while i < self.events.len()
            invariant
                i <= self.events@.len(),
                g == events_on_batch(self.events@.take(i as int), batch@),
                out@.len() == g.len(),
                forall|j: int| 0 <= j < out@.len() ==> *#[trigger] out@[j] == g[j],
            decreases self.events@.len() - i,
        {
            proof { assert(self.events@.take(i + 1).drop_last() == self.events@.take(i as int)); }
            let e = &self.events[i];
            let keep = match e.batch_id() {
                Some(b) => b.0 == batch.0,
                None => false,
            };
            if keep {
                out.push(e);
                proof { g = g.push(*e); }
            }
            i = i + 1;
        }
        proof { assert(self.events@.take(i as int) == self.events@); }
        out
    }
}

} // verus!
