use crate::accounts::{available_in, lemma_transfer_available, transfer_delta, transfer_outcome, AccountBook, AccountState, AccountView};
use crate::amount::{Amount, AmountBreakdown, U128_MAX};
use crate::capital::sat;
use crate::error::{EclipseError, Result};
use crate::ids::{AccountId, AssetId, BatchId, BidId, OperatorId, RouteId};
use crate::auction::BidTicket;
use crate::batch::BatchOrder;
use crate::operators::GuaranteeAttachment;
use crate::routes::RoutePlan;
use crate::settlement::{fee_account_name, fee_transfer, receipt_spec, second_transfers, settle_ticket_outcome,
    settlement_transfers, ticket_breakdown, SettlementConfig, SettlementReceipt};
use crate::risk::RiskConfig;
use crate::routes::RouteBook;
use crate::operators::OperatorBook;
use crate::store::{add_pair_key, pair_views, pairs_sorted};
use crate::telemetry::sat_i128;
use crate::text::{compare_pair, pair_lt, push_signed, push_str, seq_lt, signed_decimal};
use vstd::prelude::*;

verus! {

#[derive(Debug, Clone, Copy, PartialEq, Eq, Structural)]
pub enum ReconciliationSide {
    Debit,
    Credit,
}

impl ReconciliationSide {
    pub fn as_str(&self) -> (r: &'static str)
        ensures
            *self == ReconciliationSide::Debit ==> r@ == "debit"@,
            *self == ReconciliationSide::Credit ==> r@ == "credit"@,
    {
        match self {
            ReconciliationSide::Debit => "debit",
            ReconciliationSide::Credit => "credit",
        }
    }
}

/// One side of one movement of a settlement.
#[derive(Debug, PartialEq, Eq)]
pub struct ReconciliationLine {
    pub batch: BatchId,
    pub bid: BidId,
    pub route: RouteId,
    pub account: AccountId,
    pub asset: AssetId,
    pub side: ReconciliationSide,
    pub amount: Amount,
    pub memo: String,
}

impl Clone for ReconciliationLine {
    fn clone(&self) -> (r: Self)
        ensures
            r == *self,
    {
        ReconciliationLine {
            batch: self.batch.clone(),
            bid: self.bid.clone(),
            route: self.route.clone(),
            account: self.account.clone(),
            asset: self.asset.clone(),
            side: self.side,
            amount: self.amount,
            memo: self.memo.clone(),
        }
    }
}

/// The line's amount, negative for a debit, as the amount reads as an `i128`.
pub open spec fn signed_of(l: ReconciliationLine) -> int {
    match l.side {
        ReconciliationSide::Debit => -((l.amount.0 as i128) as int),
        ReconciliationSide::Credit => (l.amount.0 as i128) as int,
    }
}

/// The signed amount of the line can be computed: a debit's amount does not read as `i128::MIN`.
pub open spec fn line_ok(l: ReconciliationLine) -> bool {
    !(l.side == ReconciliationSide::Debit && (l.amount.0 as i128) == i128::MIN)
}

pub open spec fn lines_ok(s: Seq<ReconciliationLine>) -> bool {
    forall|i: int| 0 <= i < s.len() ==> line_ok(#[trigger] s[i])
}

/// A line with the given side and fields.
pub open spec fn line_is(l: ReconciliationLine, batch: BatchId, bid: BidId, route: RouteId, account: AccountId,
    asset: AssetId, side: ReconciliationSide, amount: Amount, memo: Seq<char>) -> bool {
    &&& l.batch == batch && l.bid == bid && l.route == route && l.account == account && l.asset == asset
    &&& l.side == side && l.amount == amount && l.memo@ == memo
}

impl ReconciliationLine {
    pub fn debit(batch: BatchId, bid: BidId, route: RouteId, account: AccountId, asset: AssetId, amount: Amount, memo: &str)
        -> (r: ReconciliationLine)
        ensures
            line_is(r, batch, bid, route, account, asset, ReconciliationSide::Debit, amount, memo@),
    {
        ReconciliationLine { batch, bid, route, account, asset, side: ReconciliationSide::Debit, amount, memo: memo.to_owned() }
    }

    pub fn credit(batch: BatchId, bid: BidId, route: RouteId, account: AccountId, asset: AssetId, amount: Amount, memo: &str)
        -> (r: ReconciliationLine)
        ensures
            line_is(r, batch, bid, route, account, asset, ReconciliationSide::Credit, amount, memo@),
    {
        ReconciliationLine { batch, bid, route, account, asset, side: ReconciliationSide::Credit, amount, memo: memo.to_owned() }
    }

    pub fn signed_amount(&self) -> (r: i128)
        requires
            line_ok(*self),
        ensures
            r == signed_of(*self),
    {
        match self.side {
            ReconciliationSide::Debit => -(self.amount.0 as i128),
            ReconciliationSide::Credit => self.amount.0 as i128,
        }
    }
}

/// The key a line is summed under: account and asset, or the asset alone.
pub open spec fn line_key(l: ReconciliationLine, by_account: bool) -> (Seq<char>, Seq<char>) {
    if by_account { (l.account@, l.asset@) } else { (Seq::<char>::empty(), l.asset@) }
}

/// The signed amounts of the lines under `key`, added in order with saturation.
pub open spec fn key_delta(s: Seq<ReconciliationLine>, key: (Seq<char>, Seq<char>), by_account: bool) -> int
    decreases s.len(),
{
    if s.len() == 0 {
        0
    } else if line_key(s.last(), by_account) == key {
        sat_i128(key_delta(s.drop_last(), key, by_account) + signed_of(s.last()))
    } else {
        key_delta(s.drop_last(), key, by_account)
    }
}

/// Some line is summed under `key`.
pub open spec fn has_line_key(s: Seq<ReconciliationLine>, key: (Seq<char>, Seq<char>), by_account: bool) -> bool {
    exists|m: int| 0 <= m < s.len() && line_key(#[trigger] s[m], by_account) == key
}

/// The keys under which the lines are summed, in order and each once.
fn line_keys(lines: &Vec<ReconciliationLine>, by_account: bool) -> (r: Vec<(String, String)>)
    ensures
        pairs_sorted(pair_views(r@)),
        forall|k: (Seq<char>, Seq<char>)| pair_views(r@).contains(k) <==> has_line_key(lines@, k, by_account),
{
    let mut keys: Vec<(String, String)> = Vec::new();
    let mut i: usize = 0;
    proof { reveal_strlit(""); }
    while i < lines.len()
        invariant
            i <= lines@.len(),
            pairs_sorted(pair_views(keys@)),
            forall|k: (Seq<char>, Seq<char>)| pair_views(keys@).contains(k) <==> has_line_key(lines@.take(i as int), k, by_account),
            ""@ == Seq::<char>::empty(),
        decreases lines@.len() - i,
    {
        if by_account {
            add_pair_key(&mut keys, lines[i].account.as_str(), lines[i].asset.as_str());
        } else {
            add_pair_key(&mut keys, "", lines[i].asset.as_str());
        }
        proof {
            let t = lines@.take(i + 1);
            assert forall|k: (Seq<char>, Seq<char>)| pair_views(keys@).contains(k) <==> has_line_key(t, k, by_account) by {
                if has_line_key(t, k, by_account) {
                    let m = choose|m: int| 0 <= m < t.len() && line_key(#[trigger] t[m], by_account) == k;
                    if m < i {
                        assert(lines@.take(i as int)[m] == t[m]);
                    }
                }
                if has_line_key(lines@.take(i as int), k, by_account) {
                    let m = choose|m: int| 0 <= m < i && line_key(#[trigger] lines@.take(i as int)[m], by_account) == k;
                    assert(t[m] == lines@.take(i as int)[m]);
                }
                if k == line_key(lines@[i as int], by_account) {
                    assert(t[i as int] == lines@[i as int]);
                }
            }
        }
        i = i + 1;
    }
    proof { assert(lines@.take(i as int) == lines@); }
    keys
}

/// The saturated sum of the lines under the key `(a, b)`.
fn delta_for(lines: &Vec<ReconciliationLine>, a: &str, b: &str, by_account: bool) -> (r: i128)
    requires
        lines_ok(lines@),
    ensures
        r == key_delta(lines@, (a@, b@), by_account),
{
    let mut acc: i128 = 0;
    let mut i: usize = 0;
    proof { reveal_strlit(""); }
    while i < lines.len()
        invariant
            i <= lines@.len(),
            lines_ok(lines@),
            acc == key_delta(lines@.take(i as int), (a@, b@), by_account),
            ""@ == Seq::<char>::empty(),
        decreases lines@.len() - i,
    {
        proof { assert(lines@.take(i + 1).drop_last() == lines@.take(i as int)); }
        let l = &lines[i];
        let first = if by_account { l.account.as_str() } else { "" };
        if compare_pair(first, l.asset.as_str(), a, b) == 0 {
            proof { assert(line_ok(lines@[i as int])); }
            let v = l.signed_amount();
            acc = if v > 0 && acc > i128::MAX - v {
                i128::MAX
            } else if v < 0 && acc < i128::MIN - v {
                i128::MIN
            } else {
                acc + v
            };
        }
        i = i + 1;
    }
    proof { assert(lines@.take(i as int) == lines@); }
    acc
}

/// The account and asset keys of a delta table.
pub open spec fn delta_keys(t: Seq<((AccountId, AssetId), i128)>) -> Seq<(Seq<char>, Seq<char>)> {
    t.map_values(|e: ((AccountId, AssetId), i128)| (e.0.0@, e.0.1@))
}

/// The asset keys of a conservation table, with an empty account.
pub open spec fn asset_keys(t: Seq<(AssetId, i128)>) -> Seq<(Seq<char>, Seq<char>)> {
    t.map_values(|e: (AssetId, i128)| (Seq::<char>::empty(), e.0@))
}

/// The assets of the lines, in order, with the first one whose saturated sum is not zero.
pub open spec fn first_unbalanced(s: Seq<ReconciliationLine>, asset: Seq<char>) -> bool {
    &&& has_line_key(s, (Seq::<char>::empty(), asset), false)
    &&& key_delta(s, (Seq::<char>::empty(), asset), false) != 0
    &&& forall|m: int| 0 <= m < s.len() && seq_lt(#[trigger] s[m].asset@, asset)
        ==> key_delta(s, (Seq::<char>::empty(), s[m].asset@), false) == 0
}

/// The message that reports an unbalanced asset.
pub open spec fn unbalanced_message(asset: Seq<char>, delta: int) -> Seq<char> {
    "asset "@ + asset + " reconciliation delta "@ + signed_decimal(delta)
}

/// The lines of settlements, in the order recorded.
#[derive(Clone, Debug, Default)]
pub struct ReconciliationLedger {
    pub lines: Vec<ReconciliationLine>,
}

impl ReconciliationLedger {
    pub fn new() -> (r: ReconciliationLedger)
        ensures
            r.lines@ == Seq::<ReconciliationLine>::empty(),
    {
        ReconciliationLedger { lines: Vec::new() }
    }

    pub fn push(&mut self, line: ReconciliationLine)
        ensures
            final(self).lines@ == old(self).lines@.push(line),
    {
        self.lines.push(line);
    }

    pub fn extend(&mut self, lines: Vec<ReconciliationLine>)
        ensures
            final(self).lines@ == old(self).lines@ + lines@,
    {
        let mut more = lines;
        self.lines.append(&mut more);
    }

    pub fn lines(&self) -> (r: &[ReconciliationLine])
        ensures
            r@ == self.lines@,
    {
        self.lines.as_slice()
    }

    /// The saturated sum of every account and asset, ordered by account then asset.
    pub fn account_asset_delta(&self) -> (r: Vec<((AccountId, AssetId), i128)>)
        requires
            lines_ok(self.lines@),
        ensures
            pairs_sorted(delta_keys(r@)),
            forall|k: (Seq<char>, Seq<char>)| delta_keys(r@).contains(k) <==> has_line_key(self.lines@, k, true),
            forall|i: int| 0 <= i < r@.len() ==> (#[trigger] r@[i]).1 == key_delta(self.lines@, delta_keys(r@)[i], true),
    {
        let keys = line_keys(&self.lines, true);
        let mut out: Vec<((AccountId, AssetId), i128)> = Vec::new();
        let mut i: usize = 0;
        while i < keys.len()
            invariant
                i <= keys@.len(),
                lines_ok(self.lines@),
                out@.len() == i,
                forall|j: int| 0 <= j < i ==> #[trigger] delta_keys(out@)[j] == pair_views(keys@)[j],
                forall|j: int| 0 <= j < i ==> (#[trigger] out@[j]).1 == key_delta(self.lines@, pair_views(keys@)[j], true),
            decreases keys@.len() - i,
        {
            let d = delta_for(&self.lines, keys[i].0.as_str(), keys[i].1.as_str(), true);
            let ghost before = out@;
            out.push(((AccountId(keys[i].0.clone()), AssetId(keys[i].1.clone())), d));
            proof {
                assert forall|j: int| 0 <= j < i + 1 implies #[trigger] delta_keys(out@)[j] == pair_views(keys@)[j] by {
                    if j < i { assert(out@[j] == before[j]); assert(delta_keys(before)[j] == pair_views(keys@)[j]); }
                }
            }
            i = i + 1;
        }
        proof { assert(delta_keys(out@) =~= pair_views(keys@)); }
        out
    }

    /// The saturated sum of every asset, ordered by asset.
    pub fn asset_conservation(&self) -> (r: Vec<(AssetId, i128)>)
        requires
            lines_ok(self.lines@),
        ensures
            pairs_sorted(asset_keys(r@)),
            forall|k: (Seq<char>, Seq<char>)| asset_keys(r@).contains(k) <==> has_line_key(self.lines@, k, false),
            forall|i: int| 0 <= i < r@.len() ==> (#[trigger] r@[i]).1 == key_delta(self.lines@, asset_keys(r@)[i], false),
    {
        let keys = line_keys(&self.lines, false);
        proof {
            assert forall|j: int| 0 <= j < keys@.len() implies (#[trigger] pair_views(keys@)[j]).0 == Seq::<char>::empty() by {
                assert(pair_views(keys@).contains(pair_views(keys@)[j]));
                let m = choose|m: int| 0 <= m < self.lines@.len()
                    && line_key(#[trigger] self.lines@[m], false) == pair_views(keys@)[j];
            }
        }
        let mut out: Vec<(AssetId, i128)> = Vec::new();
        let mut i: usize = 0;
        while i < keys.len()
            invariant
                i <= keys@.len(),
                lines_ok(self.lines@),
                forall|j: int| 0 <= j < keys@.len() ==> (#[trigger] pair_views(keys@)[j]).0 == Seq::<char>::empty(),
                out@.len() == i,
                forall|j: int| 0 <= j < i ==> #[trigger] asset_keys(out@)[j] == pair_views(keys@)[j],
                forall|j: int| 0 <= j < i ==> (#[trigger] out@[j]).1 == key_delta(self.lines@, pair_views(keys@)[j], false),
            decreases keys@.len() - i,
        {
            let d = delta_for(&self.lines, keys[i].0.as_str(), keys[i].1.as_str(), false);
            let ghost before = out@;
            out.push((AssetId(keys[i].1.clone()), d));
            proof {
                assert(pair_views(keys@)[i as int].0 == Seq::<char>::empty());
                assert forall|j: int| 0 <= j < i + 1 implies #[trigger] asset_keys(out@)[j] == pair_views(keys@)[j] by {
                    if j < i { assert(out@[j] == before[j]); assert(asset_keys(before)[j] == pair_views(keys@)[j]); }
                }
            }
            i = i + 1;
        }
        proof { assert(asset_keys(out@) =~= pair_views(keys@)); }
        out
    }
}

/// The lines of `s` for which `keep` holds, in order.
pub open spec fn lines_where(s: Seq<ReconciliationLine>, keep: spec_fn(ReconciliationLine) -> bool) -> Seq<ReconciliationLine>
    decreases s.len(),
{
    if s.len() == 0 {
        Seq::empty()
    } else if keep(s.last()) {
        lines_where(s.drop_last(), keep).push(s.last())
    } else {
        lines_where(s.drop_last(), keep)
    }
}

impl ReconciliationLedger {
    /// Fails with the first asset, in asset order, whose lines do not sum to zero.
    pub fn assert_conserved(&self) -> (r: Result<()>)
        requires
            lines_ok(self.lines@),
        ensures
            (forall|m: int| 0 <= m < self.lines@.len()
                ==> key_delta(self.lines@, (Seq::<char>::empty(), (#[trigger] self.lines@[m]).asset@), false) == 0) ==> r is Ok,
            r is Ok ==> forall|m: int| 0 <= m < self.lines@.len()
                ==> key_delta(self.lines@, (Seq::<char>::empty(), (#[trigger] self.lines@[m]).asset@), false) == 0,
            r is Err ==> exists|a: Seq<char>| #[trigger] first_unbalanced(self.lines@, a)
                && (r matches Err(EclipseError::InvalidScenario(m))
                    && m@ == unbalanced_message(a, key_delta(self.lines@, (Seq::<char>::empty(), a), false))),
    {
        let table = self.asset_conservation();
        let mut i: usize = 0;
        while i < table.len()
            invariant
                i <= table@.len(),
                forall|j: int| 0 <= j < i ==> (#[trigger] table@[j]).1 == 0,
                pairs_sorted(asset_keys(table@)),
                forall|k: (Seq<char>, Seq<char>)| asset_keys(table@).contains(k) <==> has_line_key(self.lines@, k, false),
                forall|j: int| 0 <= j < table@.len()
                    ==> (#[trigger] table@[j]).1 == key_delta(self.lines@, asset_keys(table@)[j], false),
            decreases table@.len() - i,
        {
            if table[i].1 != 0 {
                let mut m = String::new();
                push_str(&mut m, "asset ");
                push_str(&mut m, table[i].0.as_str());
                push_str(&mut m, " reconciliation delta ");
                push_signed(&mut m, table[i].1);
                proof {
                    let a = table@[i as int].0@;
                    assert(asset_keys(table@)[i as int] == (Seq::<char>::empty(), a));
                    assert(asset_keys(table@).contains((Seq::<char>::empty(), a)));
                    assert forall|mm: int| 0 <= mm < self.lines@.len() && seq_lt(#[trigger] self.lines@[mm].asset@, a)
                        implies key_delta(self.lines@, (Seq::<char>::empty(), self.lines@[mm].asset@), false) == 0 by {
                        let k = (Seq::<char>::empty(), self.lines@[mm].asset@);
                        assert(has_line_key(self.lines@, k, false));
                        assert(asset_keys(table@).contains(k));
                        let j = choose|j: int| 0 <= j < asset_keys(table@).len() && asset_keys(table@)[j] == k;
                        if j >= i {
                            if j > i {
                                assert(pair_lt(asset_keys(table@)[i as int], asset_keys(table@)[j]));
                            }
                            crate::text::lemma_pair_lt_order(asset_keys(table@)[i as int], k, k);
                        }
                        assert(table@[j].1 == 0);
                    }
                    assert(first_unbalanced(self.lines@, a));
                    assert(m@ =~= unbalanced_message(a, key_delta(self.lines@, (Seq::<char>::empty(), a), false)));
                }
                return Err(EclipseError::InvalidScenario(m));
            }
            i = i + 1;
        }
        proof {
            assert forall|mm: int| 0 <= mm < self.lines@.len()
                implies key_delta(self.lines@, (Seq::<char>::empty(), (#[trigger] self.lines@[mm]).asset@), false) == 0 by {
                let k = (Seq::<char>::empty(), self.lines@[mm].asset@);
                assert(has_line_key(self.lines@, k, false));
                assert(asset_keys(table@).contains(k));
                let j = choose|j: int| 0 <= j < asset_keys(table@).len() && asset_keys(table@)[j] == k;
                assert(table@[j].1 == 0);
            }
        }
        Ok(())
    }

    /// The lines of one account, in order.
    pub fn by_account(&self, account: &AccountId) -> (r: Vec<&ReconciliationLine>)
        ensures
            r@.len() == lines_where(self.lines@, |l: ReconciliationLine| l.account@ == account@).len(),
            forall|i: int| 0 <= i < r@.len()
                ==> *#[trigger] r@[i] == lines_where(self.lines@, |l: ReconciliationLine| l.account@ == account@)[i],
    {
        let ghost keep = |l: ReconciliationLine| l.account@ == account@;
        let mut out: Vec<&ReconciliationLine> = Vec::new();
        let ghost mut g: Seq<ReconciliationLine> = Seq::empty();
        let mut i: usize = 0;
        while i < self.lines.len()
            invariant
                i <= self.lines@.len(),
                keep == (|l: ReconciliationLine| l.account@ == account@),
                g == lines_where(self.lines@.take(i as int), keep),
                out@.len() == g.len(),
                forall|j: int| 0 <= j < out@.len() ==> *#[trigger] out@[j] == g[j],
            decreases self.lines@.len() - i,
        {
            proof { assert(self.lines@.take(i + 1).drop_last() == self.lines@.take(i as int)); }
            let l = &self.lines[i];
            if l.account.0 == account.0 {
                out.push(l);
                proof { g = g.push(*l); }
            }
            i = i + 1;
        }
        proof { assert(self.lines@.take(i as int) == self.lines@); }
        out
    }

    /// The lines of one asset, in order.
    pub fn by_asset(&self, asset: &AssetId) -> (r: Vec<&ReconciliationLine>)
        ensures
            r@.len() == lines_where(self.lines@, |l: ReconciliationLine| l.asset@ == asset@).len(),
            forall|i: int| 0 <= i < r@.len()
                ==> *#[trigger] r@[i] == lines_where(self.lines@, |l: ReconciliationLine| l.asset@ == asset@)[i],
    {
        let ghost keep = |l: ReconciliationLine| l.asset@ == asset@;
        let mut out: Vec<&ReconciliationLine> = Vec::new();
        let ghost mut g: Seq<ReconciliationLine> = Seq::empty();
        let mut i: usize = 0;
        while i < self.lines.len()
            invariant
                i <= self.lines@.len(),
                keep == (|l: ReconciliationLine| l.asset@ == asset@),
                g == lines_where(self.lines@.take(i as int), keep),
                out@.len() == g.len(),
                forall|j: int| 0 <= j < out@.len() ==> *#[trigger] out@[j] == g[j],
            decreases self.lines@.len() - i,
        {
            proof { assert(self.lines@.take(i + 1).drop_last() == self.lines@.take(i as int)); }
            let l = &self.lines[i];
            if l.asset.0 == asset.0 {
                out.push(l);
                proof { g = g.push(*l); }
            }
            i = i + 1;
        }
        proof { assert(self.lines@.take(i as int) == self.lines@); }
        out
    }

    /// The lines of one batch, in order.
    pub fn by_batch(&self, batch: &BatchId) -> (r: Vec<&ReconciliationLine>)
        ensures
            r@.len() == lines_where(self.lines@, |l: ReconciliationLine| l.batch@ == batch@).len(),
            forall|i: int| 0 <= i < r@.len()
                ==> *#[trigger] r@[i] == lines_where(self.lines@, |l: ReconciliationLine| l.batch@ == batch@)[i],
    {
        let ghost keep = |l: ReconciliationLine| l.batch@ == batch@;
        let mut out: Vec<&ReconciliationLine> = Vec::new();
        let ghost mut g: Seq<ReconciliationLine> = Seq::empty();
        let mut i: usize = 0;
        while i < self.lines.len()
            invariant
                i <= self.lines@.len(),
                keep == (|l: ReconciliationLine| l.batch@ == batch@),
                g == lines_where(self.lines@.take(i as int), keep),
                out@.len() == g.len(),
                forall|j: int| 0 <= j < out@.len() ==> *#[trigger] out@[j] == g[j],
            decreases self.lines@.len() - i,
        {
            proof { assert(self.lines@.take(i + 1).drop_last() == self.lines@.take(i as int)); }
            let l = &self.lines[i];
            if l.batch.0 == batch.0 {
                out.push(l);
                proof { g = g.push(*l); }
            }
            i = i + 1;
        }
        proof { assert(self.lines@.take(i as int) == self.lines@); }
        out
    }
}

/// The lines of one settlement: the payer's input into the vault, the net output from the vault to
/// the recipient, and a fee that is not zero from the vault to the operator's fee account.
pub open spec fn receipt_lines(s: Seq<ReconciliationLine>, receipt: SettlementReceipt, vault: AccountId) -> bool {
    let batch = receipt.key.batch_id;
    let bid = receipt.key.bid_id;
    let route = receipt.key.route_id;
    &&& s.len() == (if receipt.operator_fee > 0 { 6int } else { 4int })
    &&& line_is(s[0], batch, bid, route, receipt.payer, receipt.source, ReconciliationSide::Debit,
        Amount(receipt.amount_in), "payer source debit"@)
    &&& line_is(s[1], batch, bid, route, vault, receipt.source, ReconciliationSide::Credit, Amount(receipt.amount_in),
        "vault source credit"@)
    &&& line_is(s[2], batch, bid, route, vault, receipt.target, ReconciliationSide::Debit, Amount(receipt.net_out),
        "recipient payout debit"@)
    &&& line_is(s[3], batch, bid, route, receipt.recipient, receipt.target, ReconciliationSide::Credit,
        Amount(receipt.net_out), "recipient payout credit"@)
    &&& receipt.operator_fee > 0 ==> {
        &&& line_is(s[4], batch, bid, route, vault, receipt.target, ReconciliationSide::Debit, Amount(receipt.operator_fee),
            "operator fee debit"@)
        &&& s[5].batch == batch && s[5].bid == bid && s[5].route == route
        &&& s[5].account@ == fee_account_name(receipt.operator@)
        &&& s[5].asset == receipt.target && s[5].side == ReconciliationSide::Credit
        &&& s[5].amount == Amount(receipt.operator_fee) && s[5].memo@ == "operator fee credit"@
    }
}

/// The lines that record one settlement.
pub fn lines_from_receipt(receipt: &SettlementReceipt, vault: AccountId) -> (r: Vec<ReconciliationLine>)
    ensures
        receipt_lines(r@, *receipt, vault),
{
    let batch = receipt.key.batch_id.clone();
    let bid = receipt.key.bid_id.clone();
    let route = receipt.key.route_id.clone();
    let mut name = String::new();
    push_str(&mut name, "fee-");
    push_str(&mut name, receipt.operator.as_str());
    let fee_account = AccountId(name);
    proof { assert(fee_account@ =~= fee_account_name(receipt.operator@)); }
    let mut lines: Vec<ReconciliationLine> = Vec::new();
    lines.push(ReconciliationLine::debit(batch.clone(), bid.clone(), route.clone(), receipt.payer.clone(),
        receipt.source.clone(), Amount(receipt.amount_in), "payer source debit"));
    lines.push(ReconciliationLine::credit(batch.clone(), bid.clone(), route.clone(), vault.clone(), receipt.source.clone(),
        Amount(receipt.amount_in), "vault source credit"));
    lines.push(ReconciliationLine::debit(batch.clone(), bid.clone(), route.clone(), vault.clone(), receipt.target.clone(),
        Amount(receipt.net_out), "recipient payout debit"));
    lines.push(ReconciliationLine::credit(batch.clone(), bid.clone(), route.clone(), receipt.recipient.clone(),
        receipt.target.clone(), Amount(receipt.net_out), "recipient payout credit"));
    if receipt.operator_fee > 0 {
        lines.push(ReconciliationLine::debit(batch.clone(), bid.clone(), route.clone(), vault, receipt.target.clone(),
            Amount(receipt.operator_fee), "operator fee debit"));
        lines.push(ReconciliationLine::credit(batch, bid, route, fee_account, receipt.target.clone(),
            Amount(receipt.operator_fee), "operator fee credit"));
    }
    lines
}

/// Every asset's lines of one settlement sum to zero, as long as the settlement's amounts read as
/// `i128` values.
pub proof fn law_receipt_lines_balance(s: Seq<ReconciliationLine>, receipt: SettlementReceipt, vault: AccountId,
    asset: Seq<char>)
    requires
        receipt_lines(s, receipt, vault),
        receipt.amount_in <= i128::MAX,
        receipt.net_out <= i128::MAX,
        receipt.operator_fee <= i128::MAX,
    ensures
        lines_ok(s),
        key_delta(s, (Seq::<char>::empty(), asset), false) == 0,
{
    let k = (Seq::<char>::empty(), asset);
    assert(s.take(1).drop_last() =~= s.take(0));
    assert(s.take(2).drop_last() =~= s.take(1));
    assert(s.take(3).drop_last() =~= s.take(2));
    assert(s.take(4).drop_last() =~= s.take(3));
    assert(key_delta(s.take(0), k, false) == 0);
    assert(key_delta(s.take(1), k, false) == (if s[0].asset@ == asset { -(receipt.amount_in as int) } else { 0 }));
    assert(key_delta(s.take(2), k, false) == 0);
    assert(key_delta(s.take(3), k, false) == (if s[2].asset@ == asset { -(receipt.net_out as int) } else { 0 }));
    assert(key_delta(s.take(4), k, false) == 0);
    if receipt.operator_fee > 0 {
        assert(s.take(5).drop_last() =~= s.take(4));
        assert(s.take(6).drop_last() =~= s.take(5));
        assert(key_delta(s.take(5), k, false) == (if s[4].asset@ == asset { -(receipt.operator_fee as int) } else { 0 }));
        assert(key_delta(s.take(6), k, false) == 0);
        assert(s.take(6) =~= s);
    } else {
        assert(s.take(4) =~= s);
    }
}

/// The lines of a receipt record exactly the balance movements of the settlement that issued it:
/// for every account and asset, the available amount after the settlement less the amount before
/// it is the sum of the receipt's lines under that account and asset, as long as the input and,
/// together, the payout and the fee read as `i128` values.
pub proof fn law_receipt_lines_match_movements(config: SettlementConfig, order: BatchOrder, route: RoutePlan,
    ticket: BidTicket, b: AmountBreakdown, attachment: GuaranteeAttachment, fallback: bool,
    before: Map<Seq<char>, AccountState>, after: Map<Seq<char>, AccountState>, s: Seq<ReconciliationLine>,
    account: Seq<char>, asset: Seq<char>)
    requires
        settlement_transfers(config, order, route, ticket, b, before, after, Ok::<(), EclipseError>(())),
        receipt_lines(s, receipt_spec(order, route, ticket, b, attachment, fallback), config.vault_account),
        order.amount_in.0 <= i128::MAX,
        b.net.0 + b.fee.0 <= i128::MAX,
    ensures
        after.dom() == before.dom(),
        available_in(after, account, asset) - available_in(before, account, asset) == key_delta(s, (account, asset), true),
{
    let vault = config.vault_account;
    let a = order.amount_in;
    let (m1, r1) = choose|m1: Map<Seq<char>, AccountState>, r1: Result<()>|
        #[trigger] transfer_outcome(before, m1, order.payer, vault, order.source, a, r1)
        && second_transfers(config, order, route, ticket, b, m1, after, r1, Ok::<(), EclipseError>(()));
    assert(r1 is Ok);
    lemma_transfer_available(before, m1, order.payer, vault, order.source, a, r1, account, asset);
    let (m2, r2) = choose|m2: Map<Seq<char>, AccountState>, r2: Result<()>|
        #[trigger] transfer_outcome(m1, m2, vault, order.recipient, route.target, b.net, r2)
        && fee_transfer(config, route, ticket, b, m2, after, r2, Ok::<(), EclipseError>(()));
    assert(r2 is Ok);
    lemma_transfer_available(m1, m2, vault, order.recipient, route.target, b.net, r2, account, asset);
    let d1 = transfer_delta(order.payer@, vault@, order.source@, a.0 as int, account, asset);
    let d2 = transfer_delta(vault@, order.recipient@, route.target@, b.net.0 as int, account, asset);
    let fee_to = fee_account_name(ticket.request.operator@);
    let d3 = if b.fee.0 == 0 { 0 } else { transfer_delta(vault@, fee_to, route.target@, b.fee.0 as int, account, asset) };
    if b.fee.0 != 0 {
        let f = choose|f: AccountId| f@ == fee_to
            && #[trigger] transfer_outcome(m2, after, vault, f, route.target, b.fee, Ok::<(), EclipseError>(()));
        lemma_transfer_available(m2, after, vault, f, route.target, b.fee, Ok::<(), EclipseError>(()), account, asset);
    }
    assert(available_in(after, account, asset) == available_in(before, account, asset) + d1 + d2 + d3);
    let k = (account, asset);
    assert(s.take(1).drop_last() =~= s.take(0));
    assert(s.take(2).drop_last() =~= s.take(1));
    assert(s.take(3).drop_last() =~= s.take(2));
    assert(s.take(4).drop_last() =~= s.take(3));
    assert(key_delta(s.take(0), k, true) == 0);
    assert(key_delta(s.take(1), k, true) == (if account == order.payer@ && asset == order.source@ { -(a.0 as int) } else { 0 }));
    assert(key_delta(s.take(2), k, true) == d1);
    assert(key_delta(s.take(3), k, true) == d1 - (if account == vault@ && asset == route.target@ { b.net.0 as int } else { 0 }));
    assert(key_delta(s.take(4), k, true) == d1 + d2);
    if b.fee.0 > 0 {
        assert(s.take(5).drop_last() =~= s.take(4));
        assert(s.take(6).drop_last() =~= s.take(5));
        assert(key_delta(s.take(5), k, true)
            == d1 + d2 - (if account == vault@ && asset == route.target@ { b.fee.0 as int } else { 0 }));
        assert(key_delta(s.take(6), k, true) == d1 + d2 + d3);
        assert(s.take(6) =~= s);
    } else {
        assert(s.take(4) =~= s);
    }
}

/// A settlement that returns a receipt moved, for every account and asset, exactly the sum of
/// that receipt's lines under the account and asset, as long as the input and, together, the
/// payout and the fee read as `i128` values.
pub proof fn law_settled_receipt_matches_balances(config: SettlementConfig, risk: RiskConfig, order: BatchOrder,
    ticket: BidTicket, fallback: bool, routes: RouteBook, acc_before: AccountBook, acc_after: AccountBook,
    ops_before: OperatorBook, ops_after: OperatorBook, receipt: SettlementReceipt, s: Seq<ReconciliationLine>,
    account: Seq<char>, asset: Seq<char>)
    requires
        settle_ticket_outcome(config, risk, order, ticket, fallback, routes, acc_before, acc_after, ops_before, ops_after,
            Ok::<SettlementReceipt, EclipseError>(receipt)),
        receipt_lines(s, receipt, config.vault_account),
        receipt.amount_in <= i128::MAX,
        receipt.net_out + receipt.operator_fee <= i128::MAX,
    ensures
        available_in(acc_after.map(), account, asset) - available_in(acc_before.map(), account, asset)
            == key_delta(s, (account, asset), true),
{
    let route = routes.map()[ticket.request.route@];
    let b = ticket_breakdown(ticket)->Ok_0;
    let ra = choose|ra: Result<GuaranteeAttachment>| #[trigger] OperatorBook::attach_outcome(ops_before.map(), ops_after.map(),
        ticket.request.operator, ticket.request.route, route.target@,
        Amount(ticket.assessment.snapshot.required_guarantee), order.id.0, ra)
        && if ra is Err {
            Ok::<SettlementReceipt, EclipseError>(receipt) == Err::<SettlementReceipt, EclipseError>(ra->Err_0)
                && acc_after.map() == acc_before.map()
        } else {
            &&& settlement_transfers(config, order, route, ticket, b, acc_before.map(), acc_after.map(), Ok::<(), EclipseError>(()))
            &&& Ok::<SettlementReceipt, EclipseError>(receipt)
                == Ok::<SettlementReceipt, EclipseError>(receipt_spec(order, route, ticket, b, ra->Ok_0, fallback))
        };
    law_receipt_lines_match_movements(config, order, route, ticket, b, ra->Ok_0, fallback, acc_before.map(),
        acc_after.map(), s, account, asset);
}

impl ReconciliationLedger {
    pub fn from_receipt(receipt: &SettlementReceipt, vault: AccountId) -> (r: ReconciliationLedger)
        ensures
            receipt_lines(r.lines@, *receipt, vault),
    {
        let mut ledger = ReconciliationLedger::new();
        ledger.extend(lines_from_receipt(receipt, vault));
        proof { assert(ledger.lines@ =~= Seq::<ReconciliationLine>::empty() + ledger.lines@.subrange(0, ledger.lines@.len() as int)); }
        ledger
    }

    /// The lines of every receipt, in order.
    pub fn from_receipts(receipts: Vec<SettlementReceipt>, vault: AccountId) -> (r: ReconciliationLedger)
        ensures
            exists|blocks: Seq<Seq<ReconciliationLine>>| #[trigger] blocks.len() == receipts@.len()
                && (forall|i: int| 0 <= i < blocks.len() ==> receipt_lines(#[trigger] blocks[i], receipts@[i], vault))
                && r.lines@ == blocks.flatten(),
    {
        let mut ledger = ReconciliationLedger::new();
        let ghost mut blocks: Seq<Seq<ReconciliationLine>> = Seq::empty();
        let mut i: usize = 0;
        while i < receipts.len()
            invariant
                i <= receipts@.len(),
                blocks.len() == i,
                forall|j: int| 0 <= j < i ==> receipt_lines(#[trigger] blocks[j], receipts@[j], vault),
                ledger.lines@ == blocks.flatten(),
            decreases receipts@.len() - i,
        {
            let lines = lines_from_receipt(&receipts[i], vault.clone());
            let ghost block = lines@;
            ledger.extend(lines);
            proof {
                let old_blocks = blocks;
                blocks = blocks.push(block);
                assert(blocks.drop_last() == old_blocks);
                assert(blocks.flatten() == old_blocks.flatten() + block) by {
                    old_blocks.lemma_flatten_push(block);
                }
                assert forall|j: int| 0 <= j < i + 1 implies receipt_lines(#[trigger] blocks[j], receipts@[j], vault) by {
                    if j < i { assert(blocks[j] == old_blocks[j]); }
                }
            }
            i = i + 1;
        }
        ledger
    }
}

/// The balance of one asset in one account, as observed.
#[derive(Debug, PartialEq, Eq)]
pub struct AccountBalanceObservation {
    pub account: AccountId,
    pub asset: AssetId,
    pub available: Amount,
    pub reserved: Amount,
}

impl Clone for AccountBalanceObservation {
    fn clone(&self) -> (r: Self)
        ensures
            r == *self,
    {
        AccountBalanceObservation { account: self.account.clone(), asset: self.asset.clone(), ..*self }
    }
}

impl AccountBalanceObservation {
    pub fn total(&self) -> (r: Result<Amount>)
        ensures
            self.available.0 + self.reserved.0 <= U128_MAX
                ==> r == Ok::<Amount, EclipseError>(Amount((self.available.0 + self.reserved.0) as u128)),
            self.available.0 + self.reserved.0 > U128_MAX ==> r == Err::<Amount, EclipseError>(EclipseError::AmountOverflow),
    {
        self.available.checked_add(self.reserved)
    }
}

/// The observations of one account view, one per balance, in order.
pub open spec fn view_observations(v: AccountView) -> Seq<AccountBalanceObservation> {
    v.balances@.map_values(|b: crate::accounts::BalanceView| AccountBalanceObservation {
        account: v.id,
        asset: b.asset,
        available: Amount(b.available),
        reserved: Amount(b.reserved),
    })
}

/// The observations of account views, account by account.
pub open spec fn views_observations(vs: Seq<AccountView>) -> Seq<AccountBalanceObservation>
    decreases vs.len(),
{
    if vs.len() == 0 { Seq::empty() } else { views_observations(vs.drop_last()) + view_observations(vs.last()) }
}

/// The available amount of the first observation of `account` and `asset`, or zero.
pub open spec fn first_available(s: Seq<AccountBalanceObservation>, account: Seq<char>, asset: Seq<char>) -> u128
    decreases s.len(),
{
    if s.len() == 0 {
        0
    } else if s[0].account@ == account && s[0].asset@ == asset {
        s[0].available.0
    } else {
        first_available(s.drop_first(), account, asset)
    }
}

/// The observed totals of an asset, added up.
pub open spec fn observed_sum(s: Seq<AccountBalanceObservation>, asset: Seq<char>) -> int
    decreases s.len(),
{
    if s.len() == 0 {
        0
    } else if s.last().asset@ == asset {
        observed_sum(s.drop_last(), asset) + s.last().available.0 + s.last().reserved.0
    } else {
        observed_sum(s.drop_last(), asset)
    }
}

pub proof fn lemma_observed_sum_prefix(s: Seq<AccountBalanceObservation>, asset: Seq<char>, i: int)
    requires
        0 <= i <= s.len(),
    ensures
        0 <= observed_sum(s.take(i), asset) <= observed_sum(s, asset),
    decreases s.len() - i,
{
    if i < s.len() {
        lemma_observed_sum_prefix(s, asset, i + 1);
        assert(s.take(i + 1).drop_last() == s.take(i));
    } else {
        assert(s.take(i) == s);
    }
    lemma_observed_sum_nonneg(s.take(i), asset);
}

pub proof fn lemma_observed_sum_nonneg(s: Seq<AccountBalanceObservation>, asset: Seq<char>)
    ensures
        observed_sum(s, asset) >= 0,
    decreases s.len(),
{
    if s.len() > 0 {
        lemma_observed_sum_nonneg(s.drop_last(), asset);
    }
}

/// The totals by asset overflow: one observation's total, or the sum of an asset.
pub open spec fn totals_overflow(s: Seq<AccountBalanceObservation>) -> bool {
    exists|m: int| 0 <= m < s.len() && overflows_at(s, #[trigger] s[m])
}

/// The observation's own total, or its asset's sum, overflows.
pub open spec fn overflows_at(s: Seq<AccountBalanceObservation>, o: AccountBalanceObservation) -> bool {
    o.available.0 + o.reserved.0 > U128_MAX || observed_sum(s, o.asset@) > U128_MAX
}

/// The asset keys of a totals table, with an empty account.
pub open spec fn total_keys(t: Seq<(AssetId, Amount)>) -> Seq<(Seq<char>, Seq<char>)> {
    t.map_values(|e: (AssetId, Amount)| (Seq::<char>::empty(), e.0@))
}

/// Observed balances.
#[derive(Clone, Debug, Default)]
pub struct BalanceObservationSet {
    pub observations: Vec<AccountBalanceObservation>,
}

impl BalanceObservationSet {
    /// One observation per balance of each view, account by account.
    pub fn from_account_views(views: &[AccountView]) -> (r: BalanceObservationSet)
        ensures
            r.observations@ == views_observations(views@),
    {
        let mut observations: Vec<AccountBalanceObservation> = Vec::new();
        let mut i: usize = 0;
        while i < views.len()
            invariant
                i <= views@.len(),
                observations@ == views_observations(views@.take(i as int)),
            decreases views@.len() - i,
        {
            proof { assert(views@.take(i + 1).drop_last() == views@.take(i as int)); }
            let account = &views[i];
            let ghost base = observations@;
            let mut j: usize = 0;
            while j < account.balances.len()
                invariant
                    j <= account.balances@.len(),
                    observations@ == base + view_observations(*account).take(j as int),
                decreases account.balances@.len() - j,
            {
                let balance = &account.balances[j];
                observations.push(AccountBalanceObservation {
                    account: account.id.clone(),
                    asset: balance.asset.clone(),
                    available: Amount(balance.available),
                    reserved: Amount(balance.reserved),
                });
                proof {
                    assert(view_observations(*account).take(j + 1) == view_observations(*account).take(j as int)
                        .push(view_observations(*account)[j as int]));
                }
                j = j + 1;
            }
            proof { assert(view_observations(*account).take(j as int) == view_observations(*account)); }
            i = i + 1;
        }
        proof { assert(views@.take(i as int) == views@); }
        BalanceObservationSet { observations }
    }

    /// The observations of every account of the book.
    pub fn from_account_book(accounts: &AccountBook) -> (r: BalanceObservationSet)
        ensures
            exists|vs: Seq<AccountView>| #[trigger] views_observations(vs) == r.observations@
                && vs.len() == accounts.entries().len()
                && forall|i: int| 0 <= i < vs.len() ==> (#[trigger] vs[i]).describes(accounts.entries()[i]),
    {
        let views = accounts.views();
        let r = BalanceObservationSet::from_account_views(views.as_slice());
        proof { assert(views_observations(views@) == r.observations@); }
        r
    }

    pub fn observations(&self) -> (r: &[AccountBalanceObservation])
        ensures
            r@ == self.observations@,
    {
        self.observations.as_slice()
    }

    /// The available amount first observed for the account and asset, or zero.
    pub fn get(&self, account: &AccountId, asset: &AssetId) -> (r: Amount)
        ensures
            r.0 == first_available(self.observations@, account@, asset@),
    {
        let mut i: usize = 0;
        proof { assert(self.observations@.skip(0) == self.observations@); }
        while i < self.observations.len()
            invariant
                i <= self.observations@.len(),
                first_available(self.observations@, account@, asset@)
                    == first_available(self.observations@.skip(i as int), account@, asset@),
            decreases self.observations@.len() - i,
        {
            proof { assert(self.observations@.skip(i as int).drop_first() == self.observations@.skip(i + 1)); }
            let o = &self.observations[i];
            if o.account.0 == account.0 && o.asset.0 == asset.0 {
                proof { assert(self.observations@.skip(i as int)[0] == *o); }
                return o.available;
            }
            i = i + 1;
        }
        Amount(0)
    }

    /// The observed totals by asset, in asset order; an overflow fails the whole.
    pub fn total_by_asset(&self) -> (r: Result<Vec<(AssetId, Amount)>>)
        ensures
            totals_overflow(self.observations@) ==> r == Err::<Vec<(AssetId, Amount)>, EclipseError>(EclipseError::AmountOverflow),
            !totals_overflow(self.observations@) ==> r is Ok && {
                let t = r->Ok_0@;
                &&& pairs_sorted(total_keys(t))
                &&& forall|k: (Seq<char>, Seq<char>)| total_keys(t).contains(k) <==> exists|m: int|
                    0 <= m < self.observations@.len() && k == (Seq::<char>::empty(), #[trigger] self.observations@[m].asset@)
                &&& forall|i: int| 0 <= i < t.len() ==> (#[trigger] t[i]).1.0 == observed_sum(self.observations@, t[i].0@)
            },
    {
        let s = &self.observations;
        let mut i: usize = 0;
        while i < s.len()
            invariant
                i <= s@.len(),
                s@ == self.observations@,
                forall|m: int| 0 <= m < i ==> #[trigger] s@[m].available.0 + s@[m].reserved.0 <= U128_MAX,
            decreases s@.len() - i,
        {
            if s[i].total().is_err() {
                proof {
                    assert(overflows_at(s@, s@[i as int]));
                    assert(totals_overflow(self.observations@));
                }
                return Err(EclipseError::AmountOverflow);
            }
            i = i + 1;
        }
        let mut keys: Vec<(String, String)> = Vec::new();
        let mut k: usize = 0;
        proof { reveal_strlit(""); }
        while k < s.len()
            invariant
                k <= s@.len(),
                ""@ == Seq::<char>::empty(),
                pairs_sorted(pair_views(keys@)),
                forall|key: (Seq<char>, Seq<char>)| pair_views(keys@).contains(key) <==> exists|m: int|
                    0 <= m < k && key == (Seq::<char>::empty(), #[trigger] s@[m].asset@),
            decreases s@.len() - k,
        {
            add_pair_key(&mut keys, "", s[k].asset.as_str());
            proof {
                assert forall|key: (Seq<char>, Seq<char>)| pair_views(keys@).contains(key) <==> exists|m: int|
                    0 <= m < k + 1 && key == (Seq::<char>::empty(), #[trigger] s@[m].asset@) by {
                    if key == (Seq::<char>::empty(), s@[k as int].asset@) {
                        assert(0 <= k < k + 1);
                    }
                }
            }
            k = k + 1;
        }
        let mut out: Vec<(AssetId, Amount)> = Vec::new();
        let mut j: usize = 0;
        while j < keys.len()
            invariant
                j <= keys@.len(),
                s@ == self.observations@,
                forall|m: int| 0 <= m < s@.len() ==> #[trigger] s@[m].available.0 + s@[m].reserved.0 <= U128_MAX,
                pairs_sorted(pair_views(keys@)),
                forall|key: (Seq<char>, Seq<char>)| pair_views(keys@).contains(key) <==> exists|m: int|
                    0 <= m < s@.len() && key == (Seq::<char>::empty(), #[trigger] s@[m].asset@),
                out@.len() == j,
                forall|q: int| 0 <= q < j ==> #[trigger] total_keys(out@)[q] == pair_views(keys@)[q],
                forall|q: int| 0 <= q < j ==> (#[trigger] out@[q]).1.0 == observed_sum(s@, out@[q].0@),
            decreases keys@.len() - j,
        {
            proof {
                assert(pair_views(keys@).contains(pair_views(keys@)[j as int]));
            }
            let mut acc: u128 = 0;
            let mut m: usize = 0;
            while m < s.len()
                invariant
                    m <= s@.len(),
                    s@ == self.observations@,
                    j < keys@.len(),
                    forall|x: int| 0 <= x < s@.len() ==> #[trigger] s@[x].available.0 + s@[x].reserved.0 <= U128_MAX,
                    acc == observed_sum(s@.take(m as int), keys@[j as int].1@),
                decreases s@.len() - m,
            {
                proof { assert(s@.take(m + 1).drop_last() == s@.take(m as int)); }
                if s[m].asset.0 == keys[j].1 {
                    let t = s[m].available.0 + s[m].reserved.0;
                    match acc.checked_add(t) {
                        Some(v) => acc = v,
                        None => {
                            proof {
                                lemma_observed_sum_prefix(s@, keys@[j as int].1@, m + 1);
                                assert(s@[m as int].asset@ == keys@[j as int].1@);
                                assert(observed_sum(s@, s@[m as int].asset@) > U128_MAX);
                                assert(overflows_at(s@, s@[m as int]));
                                assert(totals_overflow(self.observations@));
                            }
                            return Err(EclipseError::AmountOverflow);
                        },
                    }
                }
                m = m + 1;
            }
            proof { assert(s@.take(m as int) == s@); }
            let ghost before = out@;
            out.push((AssetId(keys[j].1.clone()), Amount(acc)));
            proof {
                assert forall|q: int| 0 <= q < j + 1 implies #[trigger] total_keys(out@)[q] == pair_views(keys@)[q] by {
                    if q < j { assert(out@[q] == before[q]); assert(total_keys(before)[q] == pair_views(keys@)[q]); }
                    else {
                        let mm = choose|mm: int| 0 <= mm < s@.len()
                            && pair_views(keys@)[j as int] == (Seq::<char>::empty(), #[trigger] s@[mm].asset@);
                    }
                }
                assert forall|q: int| 0 <= q < j + 1 implies (#[trigger] out@[q]).1.0 == observed_sum(s@, out@[q].0@) by {
                    if q < j { assert(out@[q] == before[q]); }
                }
            }
            j = j + 1;
        }
        proof {
            assert(total_keys(out@) =~= pair_views(keys@));
            if totals_overflow(self.observations@) {
                let mm = choose|mm: int| 0 <= mm < s@.len() && overflows_at(s@, #[trigger] s@[mm]);
                assert(pair_views(keys@).contains((Seq::<char>::empty(), s@[mm].asset@)));
                let q = choose|q: int| 0 <= q < pair_views(keys@).len() && pair_views(keys@)[q] == (Seq::<char>::empty(), s@[mm].asset@);
                assert(total_keys(out@)[q] == pair_views(keys@)[q]);
            }
        }
        Ok(out)
    }
}

/// The account and asset of an observation.
pub open spec fn obs_key(o: AccountBalanceObservation) -> (Seq<char>, Seq<char>) {
    (o.account@, o.asset@)
}

/// The available amount of the last observation under `key`, if any.
pub open spec fn last_available(s: Seq<AccountBalanceObservation>, key: (Seq<char>, Seq<char>)) -> Option<u128>
    decreases s.len(),
{
    if s.len() == 0 {
        None
    } else if obs_key(s.last()) == key {
        Some(s.last().available.0)
    } else {
        last_available(s.drop_last(), key)
    }
}

/// The amount last observed under `key`, or zero.
pub open spec fn first_amount(s: Seq<AccountBalanceObservation>, key: (Seq<char>, Seq<char>)) -> u128 {
    if last_available(s, key) is Some { last_available(s, key)->Some_0 } else { 0 }
}

/// Comparing `before` with `after` stays within `i128`: no amount observed in `before` reads as
/// `i128::MIN` when negated, and no observation in `after` falls short of the amount last observed
/// in `before` under its key by exactly 2^127.
pub open spec fn diff_ok(before: Seq<AccountBalanceObservation>, after: Seq<AccountBalanceObservation>) -> bool {
    &&& forall|m: int| 0 <= m < before.len() ==> (#[trigger] before[m]).available.0 != 0x8000_0000_0000_0000_0000_0000_0000_0000
    &&& forall|m: int| 0 <= m < after.len() ==> {
        let b = first_amount(before, obs_key(#[trigger] after[m]));
        after[m].available.0 < b ==> b - after[m].available.0 != 0x8000_0000_0000_0000_0000_0000_0000_0000
    }
}

/// The change of a balance: to the later amount, or to nothing when it was not observed again. The
/// signed change reads the unsigned difference as an `i128`, as Rust's `as` does.
pub open spec fn balance_change(before: Option<u128>, after: Option<u128>) -> (u128, u128, int) {
    let b = if before is Some { before->Some_0 } else { 0 };
    match after {
        Some(a) => (b, a, if a >= b { ((a - b) as i128) as int } else { -(((b - a) as i128) as int) }),
        None => (b, 0, -((b as i128) as int)),
    }
}

/// The last observation under a key is one of the observations.
proof fn lemma_last_available_observed(s: Seq<AccountBalanceObservation>, key: (Seq<char>, Seq<char>))
    ensures
        last_available(s, key) is Some ==> exists|m: int| 0 <= m < s.len() && obs_key(#[trigger] s[m]) == key
            && s[m].available.0 == last_available(s, key)->Some_0,
    decreases s.len(),
{
    if s.len() > 0 {
        lemma_last_available_observed(s.drop_last(), key);
        if obs_key(s.last()) == key {
            assert(obs_key(s[s.len() - 1]) == key);
        } else if last_available(s, key) is Some {
            let m = choose|m: int| 0 <= m < s.drop_last().len() && obs_key(#[trigger] s.drop_last()[m]) == key
                && s.drop_last()[m].available.0 == last_available(s.drop_last(), key)->Some_0;
            assert(s[m] == s.drop_last()[m]);
        }
    }
}

/// The keys of a diff's entries.
pub open spec fn diff_keys(t: Seq<BalanceDiffEntry>) -> Seq<(Seq<char>, Seq<char>)> {
    t.map_values(|e: BalanceDiffEntry| (e.account@, e.asset@))
}

/// The change of one balance between two observation sets.
#[derive(Clone, Debug, PartialEq, Eq)]
pub struct BalanceDiffEntry {
    pub account: AccountId,
    pub asset: AssetId,
    pub before: u128,
    pub after: u128,
    pub delta: i128,
}

/// The changes of every balance observed in either set, by account then asset.
#[derive(Clone, Debug, PartialEq, Eq)]
pub struct BalanceDiff {
    pub entries: Vec<BalanceDiffEntry>,
}

/// The entries of `s` for which `keep` holds, in order.
pub open spec fn entries_where(s: Seq<BalanceDiffEntry>, keep: spec_fn(BalanceDiffEntry) -> bool) -> Seq<BalanceDiffEntry>
    decreases s.len(),
{
    if s.len() == 0 {
        Seq::empty()
    } else if keep(s.last()) {
        entries_where(s.drop_last(), keep).push(s.last())
    } else {
        entries_where(s.drop_last(), keep)
    }
}

/// The last available amount observed under the key `(a, b)`.
fn last_observed(s: &Vec<AccountBalanceObservation>, a: &str, b: &str) -> (r: Option<u128>)
    ensures
        r == last_available(s@, (a@, b@)),
{
    let mut found: Option<u128> = None;
    let mut i: usize = 0;
    while i < s.len()
        invariant
            i <= s@.len(),
            found == last_available(s@.take(i as int), (a@, b@)),
        decreases s@.len() - i,
    {
        proof { assert(s@.take(i + 1).drop_last() == s@.take(i as int)); }
        if compare_pair(s[i].account.as_str(), s[i].asset.as_str(), a, b) == 0 {
            found = Some(s[i].available.0);
        }
        i = i + 1;
    }
    proof { assert(s@.take(i as int) == s@); }
    found
}

impl BalanceObservationSet {
    /// The change of every balance observed here or in `next`: from the last amount observed here
    /// (or zero) to the last amount observed in `next`, or to zero when `next` does not observe it.
    pub fn diff(&self, next: &BalanceObservationSet) -> (r: BalanceDiff)
        requires
            diff_ok(self.observations@, next.observations@),
        ensures
            pairs_sorted(diff_keys(r.entries@)),
            forall|k: (Seq<char>, Seq<char>)| diff_keys(r.entries@).contains(k) <==>
                (exists|m: int| 0 <= m < self.observations@.len() && k == obs_key(#[trigger] self.observations@[m]))
                || (exists|m: int| 0 <= m < next.observations@.len() && k == obs_key(#[trigger] next.observations@[m])),
            forall|i: int| 0 <= i < r.entries@.len() ==> {
                let e = #[trigger] r.entries@[i];
                let c = balance_change(last_available(self.observations@, (e.account@, e.asset@)),
                    last_available(next.observations@, (e.account@, e.asset@)));
                e.before == c.0 && e.after == c.1 && e.delta == c.2
            },
            forall|i: int| 0 <= i < r.entries@.len() ==> {
                let e = #[trigger] r.entries@[i];
                e.before <= i128::MAX && e.after <= i128::MAX ==> e.delta == e.after - e.before
            },
    {
        let mut keys: Vec<(String, String)> = Vec::new();
        let mut i: usize = 0;
        while i < self.observations.len()
            invariant
                i <= self.observations@.len(),
                pairs_sorted(pair_views(keys@)),
                forall|k: (Seq<char>, Seq<char>)| pair_views(keys@).contains(k) <==>
                    exists|m: int| 0 <= m < i && k == obs_key(#[trigger] self.observations@[m]),
            decreases self.observations@.len() - i,
        {
            add_pair_key(&mut keys, self.observations[i].account.as_str(), self.observations[i].asset.as_str());
            proof {
                assert forall|k: (Seq<char>, Seq<char>)| pair_views(keys@).contains(k) <==>
                    exists|m: int| 0 <= m < i + 1 && k == obs_key(#[trigger] self.observations@[m]) by {
                    if k == obs_key(self.observations@[i as int]) { assert(0 <= i < i + 1); }
                }
            }
            i = i + 1;
        }
        let mut j: usize = 0;
        while j < next.observations.len()
            invariant
                j <= next.observations@.len(),
                pairs_sorted(pair_views(keys@)),
                forall|k: (Seq<char>, Seq<char>)| pair_views(keys@).contains(k) <==>
                    (exists|m: int| 0 <= m < self.observations@.len() && k == obs_key(#[trigger] self.observations@[m]))
                    || (exists|m: int| 0 <= m < j && k == obs_key(#[trigger] next.observations@[m])),
            decreases next.observations@.len() - j,
        {
            add_pair_key(&mut keys, next.observations[j].account.as_str(), next.observations[j].asset.as_str());
            proof {
                assert forall|k: (Seq<char>, Seq<char>)| pair_views(keys@).contains(k) <==>
                    (exists|m: int| 0 <= m < self.observations@.len() && k == obs_key(#[trigger] self.observations@[m]))
                    || (exists|m: int| 0 <= m < j + 1 && k == obs_key(#[trigger] next.observations@[m])) by {
                    if k == obs_key(next.observations@[j as int]) { assert(0 <= j < j + 1); }
                }
            }
            j = j + 1;
        }
        let mut entries: Vec<BalanceDiffEntry> = Vec::new();
        let mut q: usize = 0;
        while q < keys.len()
            invariant
                q <= keys@.len(),
                diff_ok(self.observations@, next.observations@),
                entries@.len() == q,
                forall|x: int| 0 <= x < q ==> #[trigger] diff_keys(entries@)[x] == pair_views(keys@)[x],
                forall|x: int| 0 <= x < q ==> {
                    let e = #[trigger] entries@[x];
                    let c = balance_change(last_available(self.observations@, (e.account@, e.asset@)),
                        last_available(next.observations@, (e.account@, e.asset@)));
                    e.before == c.0 && e.after == c.1 && e.delta == c.2
                },
            decreases keys@.len() - q,
        {
            let a = keys[q].0.as_str();
            let b = keys[q].1.as_str();
            let before_opt = last_observed(&self.observations, a, b);
            let after_opt = last_observed(&next.observations, a, b);
            proof {
                lemma_last_available_observed(self.observations@, (a@, b@));
                lemma_last_available_observed(next.observations@, (a@, b@));
            }
            let before: u128 = match before_opt {
                Some(v) => v,
                None => 0,
            };
            proof {
                if before_opt is Some {
                    let m = choose|m: int| 0 <= m < self.observations@.len()
                        && obs_key(#[trigger] self.observations@[m]) == (a@, b@)
                        && self.observations@[m].available.0 == before_opt->Some_0;
                    assert(self.observations@[m].available.0 != 0x8000_0000_0000_0000_0000_0000_0000_0000u128);
                }
                if after_opt is Some {
                    let m = choose|m: int| 0 <= m < next.observations@.len()
                        && obs_key(#[trigger] next.observations@[m]) == (a@, b@)
                        && next.observations@[m].available.0 == after_opt->Some_0;
                    assert(first_amount(self.observations@, obs_key(next.observations@[m])) == before);
                }
            }
            let (after, delta): (u128, i128) = match after_opt {
                Some(v) => {
                    if v >= before {
                        (v, (v - before) as i128)
                    } else {
                        let gap: u128 = before - v;
                        assert((gap as i128) != i128::MIN) by (bit_vector)
                            requires gap != 0x8000_0000_0000_0000_0000_0000_0000_0000u128;
                        (v, -(gap as i128))
                    }
                },
                None => {
                    assert((before as i128) != i128::MIN) by (bit_vector)
                        requires before != 0x8000_0000_0000_0000_0000_0000_0000_0000u128;
                    (0, -(before as i128))
                },
            };
            let ghost old_entries = entries@;
            entries.push(BalanceDiffEntry {
                account: AccountId(keys[q].0.clone()),
                asset: AssetId(keys[q].1.clone()),
                before,
                after,
                delta,
            });
            proof {
                assert forall|x: int| 0 <= x < q + 1 implies #[trigger] diff_keys(entries@)[x] == pair_views(keys@)[x] by {
                    if x < q { assert(entries@[x] == old_entries[x]); assert(diff_keys(old_entries)[x] == pair_views(keys@)[x]); }
                }
                assert forall|x: int| 0 <= x < q + 1 implies {
                    let e = #[trigger] entries@[x];
                    let c = balance_change(last_available(self.observations@, (e.account@, e.asset@)),
                        last_available(next.observations@, (e.account@, e.asset@)));
                    e.before == c.0 && e.after == c.1 && e.delta == c.2
                } by {
                    if x < q { assert(entries@[x] == old_entries[x]); }
                }
            }
            q = q + 1;
        }
        proof { assert(diff_keys(entries@) =~= pair_views(keys@)); }
        BalanceDiff { entries }
    }
}

impl BalanceDiff {
    /// The entries whose balance changed, in order.
    pub fn non_zero(&self) -> (r: Vec<&BalanceDiffEntry>)
        ensures
            r@.len() == entries_where(self.entries@, |e: BalanceDiffEntry| e.delta != 0).len(),
            forall|i: int| 0 <= i < r@.len()
                ==> *#[trigger] r@[i] == entries_where(self.entries@, |e: BalanceDiffEntry| e.delta != 0)[i],
    {
        let ghost keep = |e: BalanceDiffEntry| e.delta != 0;
        let mut out: Vec<&BalanceDiffEntry> = Vec::new();
        let ghost mut g: Seq<BalanceDiffEntry> = Seq::empty();
        let mut i: usize = 0;
        while i < self.entries.len()
            invariant
                i <= self.entries@.len(),
                keep == (|e: BalanceDiffEntry| e.delta != 0),
                g == entries_where(self.entries@.take(i as int), keep),
                out@.len() == g.len(),
                forall|j: int| 0 <= j < out@.len() ==> *#[trigger] out@[j] == g[j],
            decreases self.entries@.len() - i,
        {
            proof { assert(self.entries@.take(i + 1).drop_last() == self.entries@.take(i as int)); }
            let e = &self.entries[i];
            if e.delta != 0 {
                out.push(e);
                proof { g = g.push(*e); }
            }
            i = i + 1;
        }
        proof { assert(self.entries@.take(i as int) == self.entries@); }
        out
    }

    /// The entries of one account, in order.
    pub fn by_account(&self, account: &AccountId) -> (r: Vec<&BalanceDiffEntry>)
        ensures
            r@.len() == entries_where(self.entries@, |e: BalanceDiffEntry| e.account@ == account@).len(),
            forall|i: int| 0 <= i < r@.len()
                ==> *#[trigger] r@[i] == entries_where(self.entries@, |e: BalanceDiffEntry| e.account@ == account@)[i],
    {
        let ghost keep = |e: BalanceDiffEntry| e.account@ == account@;
        let mut out: Vec<&BalanceDiffEntry> = Vec::new();
        let ghost mut g: Seq<BalanceDiffEntry> = Seq::empty();
        let mut i: usize = 0;
        while i < self.entries.len()
            invariant
                i <= self.entries@.len(),
                keep == (|e: BalanceDiffEntry| e.account@ == account@),
                g == entries_where(self.entries@.take(i as int), keep),
                out@.len() == g.len(),
                forall|j: int| 0 <= j < out@.len() ==> *#[trigger] out@[j] == g[j],
            decreases self.entries@.len() - i,
        {
            proof { assert(self.entries@.take(i + 1).drop_last() == self.entries@.take(i as int)); }
            let e = &self.entries[i];
            if e.account.0 == account.0 {
                out.push(e);
                proof { g = g.push(*e); }
            }
            i = i + 1;
        }
        proof { assert(self.entries@.take(i as int) == self.entries@); }
        out
    }

    /// The entries of one asset, in order.
    pub fn by_asset(&self, asset: &AssetId) -> (r: Vec<&BalanceDiffEntry>)
        ensures
            r@.len() == entries_where(self.entries@, |e: BalanceDiffEntry| e.asset@ == asset@).len(),
            forall|i: int| 0 <= i < r@.len()
                ==> *#[trigger] r@[i] == entries_where(self.entries@, |e: BalanceDiffEntry| e.asset@ == asset@)[i],
    {
        let ghost keep = |e: BalanceDiffEntry| e.asset@ == asset@;
        let mut out: Vec<&BalanceDiffEntry> = Vec::new();
        let ghost mut g: Seq<BalanceDiffEntry> = Seq::empty();
        let mut i: usize = 0;
        while i < self.entries.len()
            invariant
                i <= self.entries@.len(),
                keep == (|e: BalanceDiffEntry| e.asset@ == asset@),
                g == entries_where(self.entries@.take(i as int), keep),
                out@.len() == g.len(),
                forall|j: int| 0 <= j < out@.len() ==> *#[trigger] out@[j] == g[j],
            decreases self.entries@.len() - i,
        {
            proof { assert(self.entries@.take(i + 1).drop_last() == self.entries@.take(i as int)); }
            let e = &self.entries[i];
            if e.asset.0 == asset.0 {
                out.push(e);
                proof { g = g.push(*e); }
            }
            i = i + 1;
        }
        proof { assert(self.entries@.take(i as int) == self.entries@); }
        out
    }
}

/// What one operator settled over one route.
#[derive(Clone, Debug, PartialEq, Eq)]
pub struct OperatorSettlementSummary {
    pub operator: OperatorId,
    pub route: RouteId,
    pub batches: u64,
    pub gross_out: u128,
    pub net_out: u128,
    pub fees: u128,
    pub required_guarantee: u128,
    pub attached_guarantee: u128,
}

/// `a + b`, saturating at the largest `u64`.
pub open spec fn sat_u64(x: int) -> int {
    if x > u64::MAX { u64::MAX as int } else { x }
}

/// The counters of a summary after one more receipt.
pub open spec fn recorded(s: OperatorSettlementSummary, receipt: SettlementReceipt) -> OperatorSettlementSummary {
    OperatorSettlementSummary {
        batches: sat_u64(s.batches + 1) as u64,
        gross_out: sat(s.gross_out + receipt.gross_out) as u128,
        net_out: sat(s.net_out + receipt.net_out) as u128,
        fees: sat(s.fees + receipt.operator_fee) as u128,
        required_guarantee: sat(s.required_guarantee + receipt.required_guarantee) as u128,
        attached_guarantee: sat(s.attached_guarantee + receipt.attached_guarantee) as u128,
        ..s
    }
}

impl OperatorSettlementSummary {
    pub fn new(operator: OperatorId, route: RouteId) -> (r: OperatorSettlementSummary)
        ensures
            r == (OperatorSettlementSummary {
                operator,
                route,
                batches: 0,
                gross_out: 0,
                net_out: 0,
                fees: 0,
                required_guarantee: 0,
                attached_guarantee: 0,
            }),
    {
        OperatorSettlementSummary {
            operator,
            route,
            batches: 0,
            gross_out: 0,
            net_out: 0,
            fees: 0,
            required_guarantee: 0,
            attached_guarantee: 0,
        }
    }

    pub fn record(&mut self, receipt: &SettlementReceipt)
        ensures
            *final(self) == recorded(*old(self), *receipt),
    {
        self.batches = self.batches.saturating_add(1);
        self.gross_out = self.gross_out.saturating_add(receipt.gross_out);
        self.net_out = self.net_out.saturating_add(receipt.net_out);
        self.fees = self.fees.saturating_add(receipt.operator_fee);
        self.required_guarantee = self.required_guarantee.saturating_add(receipt.required_guarantee);
        self.attached_guarantee = self.attached_guarantee.saturating_add(receipt.attached_guarantee);
    }

    /// The attached guarantee less the required one.
    pub fn guarantee_margin(&self) -> (r: i128)
        requires
            i128::MIN <= crate::risk::signed_gap(self.attached_guarantee, self.required_guarantee) <= i128::MAX,
        ensures
            r == crate::risk::signed_gap(self.attached_guarantee, self.required_guarantee),
            self.attached_guarantee <= i128::MAX && self.required_guarantee <= i128::MAX
                ==> r == self.attached_guarantee - self.required_guarantee,
    {
        self.attached_guarantee as i128 - self.required_guarantee as i128
    }
}

/// The operator and route of a receipt.
pub open spec fn receipt_key(r: SettlementReceipt) -> (Seq<char>, Seq<char>) {
    (r.operator@, r.key.route_id@)
}

/// The summary of the receipts under `key`, recorded in order from `start`.
pub open spec fn summary_fold(s: Seq<SettlementReceipt>, key: (Seq<char>, Seq<char>), start: OperatorSettlementSummary)
    -> OperatorSettlementSummary
    decreases s.len(),
{
    if s.len() == 0 {
        start
    } else if receipt_key(s.last()) == key {
        recorded(summary_fold(s.drop_last(), key, start), s.last())
    } else {
        summary_fold(s.drop_last(), key, start)
    }
}

/// How many of the receipts are under `key`.
pub open spec fn receipt_count(s: Seq<SettlementReceipt>, key: (Seq<char>, Seq<char>)) -> int
    decreases s.len(),
{
    if s.len() == 0 {
        0
    } else {
        receipt_count(s.drop_last(), key) + (if receipt_key(s.last()) == key { 1int } else { 0 })
    }
}

/// The total gross output, net output and fee of the receipts under `key`.
pub open spec fn receipt_totals(s: Seq<SettlementReceipt>, key: (Seq<char>, Seq<char>)) -> (int, int, int)
    decreases s.len(),
{
    if s.len() == 0 {
        (0, 0, 0)
    } else {
        let t = receipt_totals(s.drop_last(), key);
        if receipt_key(s.last()) == key {
            (t.0 + s.last().gross_out, t.1 + s.last().net_out, t.2 + s.last().operator_fee)
        } else {
            t
        }
    }
}

/// A summary counts one settled batch per receipt under its operator and route, and adds up their
/// gross outputs, net outputs and fees, each saturating at its type's largest value.
pub proof fn law_summary_counts_receipts(s: Seq<SettlementReceipt>, key: (Seq<char>, Seq<char>),
    start: OperatorSettlementSummary)
    ensures
        summary_fold(s, key, start).batches == sat_u64(start.batches + receipt_count(s, key)),
        summary_fold(s, key, start).gross_out == sat(start.gross_out + receipt_totals(s, key).0),
        summary_fold(s, key, start).net_out == sat(start.net_out + receipt_totals(s, key).1),
        summary_fold(s, key, start).fees == sat(start.fees + receipt_totals(s, key).2),
        summary_fold(s, key, start).operator == start.operator,
        summary_fold(s, key, start).route == start.route,
        receipt_count(s, key) >= 0,
    decreases s.len(),
{
    if s.len() > 0 {
        law_summary_counts_receipts(s.drop_last(), key, start);
        let t = receipt_totals(s.drop_last(), key);
        assert(t.0 >= 0 && t.1 >= 0 && t.2 >= 0) by {
            lemma_receipt_totals_nonneg(s.drop_last(), key);
        }
    }
}

proof fn lemma_receipt_totals_nonneg(s: Seq<SettlementReceipt>, key: (Seq<char>, Seq<char>))
    ensures
        receipt_totals(s, key).0 >= 0,
        receipt_totals(s, key).1 >= 0,
        receipt_totals(s, key).2 >= 0,
    decreases s.len(),
{
    if s.len() > 0 {
        lemma_receipt_totals_nonneg(s.drop_last(), key);
    }
}

/// The keys of a list of summaries.
pub open spec fn summary_keys(t: Seq<OperatorSettlementSummary>) -> Seq<(Seq<char>, Seq<char>)> {
    t.map_values(|x: OperatorSettlementSummary| (x.operator@, x.route@))
}

/// One summary per operator and route of the receipts, ordered by operator then route.
pub fn summarize_by_operator_route(receipts: &[SettlementReceipt]) -> (r: Vec<OperatorSettlementSummary>)
    ensures
        pairs_sorted(summary_keys(r@)),
        forall|k: (Seq<char>, Seq<char>)| summary_keys(r@).contains(k) <==>
            exists|m: int| 0 <= m < receipts@.len() && k == receipt_key(#[trigger] receipts@[m]),
        forall|i: int| 0 <= i < r@.len() ==> #[trigger] r@[i] == summary_fold(receipts@, summary_keys(r@)[i],
            OperatorSettlementSummary {
                operator: r@[i].operator,
                route: r@[i].route,
                batches: 0,
                gross_out: 0,
                net_out: 0,
                fees: 0,
                required_guarantee: 0,
                attached_guarantee: 0,
            }),
        forall|i: int| 0 <= i < r@.len() ==> (#[trigger] r@[i]).batches
            == sat_u64(receipt_count(receipts@, summary_keys(r@)[i])),
        forall|i: int| 0 <= i < r@.len() ==> (#[trigger] r@[i]).gross_out
            == sat(receipt_totals(receipts@, summary_keys(r@)[i]).0)
            && r@[i].net_out == sat(receipt_totals(receipts@, summary_keys(r@)[i]).1)
            && r@[i].fees == sat(receipt_totals(receipts@, summary_keys(r@)[i]).2),
{
    let mut keys: Vec<(String, String)> = Vec::new();
    let mut i: usize = 0;
    while i < receipts.len()
        invariant
            i <= receipts@.len(),
            pairs_sorted(pair_views(keys@)),
            forall|k: (Seq<char>, Seq<char>)| pair_views(keys@).contains(k) <==>
                exists|m: int| 0 <= m < i && k == receipt_key(#[trigger] receipts@[m]),
        decreases receipts@.len() - i,
    {
        add_pair_key(&mut keys, receipts[i].operator.as_str(), receipts[i].key.route_id.as_str());
        proof {
            assert forall|k: (Seq<char>, Seq<char>)| pair_views(keys@).contains(k) <==>
                exists|m: int| 0 <= m < i + 1 && k == receipt_key(#[trigger] receipts@[m]) by {
                if k == receipt_key(receipts@[i as int]) { assert(0 <= i < i + 1); }
            }
        }
        i = i + 1;
    }
    let mut out: Vec<OperatorSettlementSummary> = Vec::new();
    let mut q: usize = 0;
    while q < keys.len()
        invariant
            q <= keys@.len(),
            out@.len() == q,
            forall|x: int| 0 <= x < q ==> #[trigger] summary_keys(out@)[x] == pair_views(keys@)[x],
            forall|x: int| 0 <= x < q ==> #[trigger] out@[x] == summary_fold(receipts@, pair_views(keys@)[x],
                OperatorSettlementSummary {
                    operator: out@[x].operator,
                    route: out@[x].route,
                    batches: 0,
                    gross_out: 0,
                    net_out: 0,
                    fees: 0,
                    required_guarantee: 0,
                    attached_guarantee: 0,
                }),
        decreases keys@.len() - q,
    {
        let mut summary = OperatorSettlementSummary::new(OperatorId(keys[q].0.clone()), RouteId(keys[q].1.clone()));
        let ghost start = summary;
        let key = (keys[q].0.as_str(), keys[q].1.as_str());
        let mut m: usize = 0;
        while m < receipts.len()
            invariant
                m <= receipts@.len(),
                q < keys@.len(),
                key.0@ == pair_views(keys@)[q as int].0 && key.1@ == pair_views(keys@)[q as int].1,
                summary == summary_fold(receipts@.take(m as int), pair_views(keys@)[q as int], start),
            decreases receipts@.len() - m,
        {
            proof { assert(receipts@.take(m + 1).drop_last() == receipts@.take(m as int)); }
            if compare_pair(receipts[m].operator.as_str(), receipts[m].key.route_id.as_str(), key.0, key.1) == 0 {
                summary.record(&receipts[m]);
            }
            m = m + 1;
        }
        proof {
            assert(receipts@.take(m as int) == receipts@);
            lemma_summary_fold_keeps_ids(receipts@, pair_views(keys@)[q as int], start);
        }
        let ghost old_out = out@;
        out.push(summary);
        proof {
            assert forall|x: int| 0 <= x < q + 1 implies #[trigger] summary_keys(out@)[x] == pair_views(keys@)[x] by {
                if x < q { assert(out@[x] == old_out[x]); assert(summary_keys(old_out)[x] == pair_views(keys@)[x]); }
            }
            assert forall|x: int| 0 <= x < q + 1 implies #[trigger] out@[x] == summary_fold(receipts@, pair_views(keys@)[x],
                OperatorSettlementSummary {
                    operator: out@[x].operator,
                    route: out@[x].route,
                    batches: 0,
                    gross_out: 0,
                    net_out: 0,
                    fees: 0,
                    required_guarantee: 0,
                    attached_guarantee: 0,
                }) by {
                if x < q { assert(out@[x] == old_out[x]); }
            }
        }
        q = q + 1;
    }
    proof {
        assert(summary_keys(out@) =~= pair_views(keys@));
        assert forall|i: int| 0 <= i < out@.len() implies #[trigger] out@[i] == summary_fold(receipts@, summary_keys(out@)[i],
            OperatorSettlementSummary {
                operator: out@[i].operator,
                route: out@[i].route,
                batches: 0,
                gross_out: 0,
                net_out: 0,
                fees: 0,
                required_guarantee: 0,
                attached_guarantee: 0,
            }) by {
            assert(summary_keys(out@)[i] == pair_views(keys@)[i]);
        }
        assert forall|i: int| 0 <= i < out@.len() implies (#[trigger] out@[i]).batches
            == sat_u64(receipt_count(receipts@, summary_keys(out@)[i]))
            && out@[i].gross_out == sat(receipt_totals(receipts@, summary_keys(out@)[i]).0)
            && out@[i].net_out == sat(receipt_totals(receipts@, summary_keys(out@)[i]).1)
            && out@[i].fees == sat(receipt_totals(receipts@, summary_keys(out@)[i]).2) by {
            let start = OperatorSettlementSummary {
                operator: out@[i].operator,
                route: out@[i].route,
                batches: 0,
                gross_out: 0,
                net_out: 0,
                fees: 0,
                required_guarantee: 0,
                attached_guarantee: 0,
            };
            law_summary_counts_receipts(receipts@, summary_keys(out@)[i], start);
        }
    }
    out
}

/// Recording receipts keeps a summary's operator and route.
proof fn lemma_summary_fold_keeps_ids(s: Seq<SettlementReceipt>, key: (Seq<char>, Seq<char>), start: OperatorSettlementSummary)
    ensures
        summary_fold(s, key, start).operator == start.operator,
        summary_fold(s, key, start).route == start.route,
    decreases s.len(),
{
    if s.len() > 0 {
        lemma_summary_fold_keeps_ids(s.drop_last(), key, start);
    }
}

} // verus!
