use eclipsedtl::amount::{Amount, BasisPoints};
use eclipsedtl::codec::{envelope_payload, Digest, Envelope, Journal, JournalFrame};
use eclipsedtl::error::EclipseError;
use eclipsedtl::events::{Event, EventLog};
use eclipsedtl::ids::{AccountId, AssetId, BatchId, BidId, OperatorId, RouteId, SettlementKey};
use eclipsedtl::policy::{AssetPolicy, OperatorPolicy, PolicyBook, PolicyDecision, PolicyTrace, RoutePolicy};
use eclipsedtl::portfolio::{OperatorPortfolio, PortfolioBucket, PortfolioRegistry, RoutePortfolio};
use eclipsedtl::accounts::{AccountBook, AccountRole};
use eclipsedtl::reconciliation::{
    lines_from_receipt, summarize_by_operator_route, BalanceObservationSet, ReconciliationLedger, ReconciliationLine,
};
use eclipsedtl::schedule::{
    BatchDeadline, BatchPriority, BatchScheduler, DeadlineState, Epoch, EpochCalendar, TimeWindow, Timestamp,
};
use eclipsedtl::settlement::SettlementReceipt;
use eclipsedtl::telemetry::{Histogram, ServiceLevelWindow, TelemetryRegistry};

fn warn(s: &str) -> PolicyDecision {
    PolicyDecision::Warn(s.to_owned())
}

fn reject(s: &str) -> PolicyDecision {
    PolicyDecision::Reject(s.to_owned())
}

#[test]
fn policy_merge_keeps_the_strongest_decision() {
    assert_eq!(PolicyDecision::Accept.merge(warn("a")), warn("a"));
    assert_eq!(warn("a").merge(warn("b")), warn("a; b"));
    assert_eq!(warn("a").merge(reject("r")), reject("r"));
    assert_eq!(reject("x").merge(reject("y")), reject("x; y"));
    assert_eq!(PolicyDecision::Accept.merge(PolicyDecision::Accept), PolicyDecision::Accept);
    assert!(warn("a").is_accept());
    assert!(!reject("a").is_accept());
    assert_eq!(reject("why").reason(), Some("why"));
    assert_eq!(PolicyDecision::Accept.reason(), None);
}

#[test]
fn policy_merge_is_associative_on_examples() {
    let (a, b, c) = (warn("a"), reject("b"), reject("c"));
    assert_eq!(a.clone().merge(b.clone()).merge(c.clone()), a.merge(b.merge(c)));
    let (x, y, z) = (warn("x"), PolicyDecision::Accept, warn("z"));
    assert_eq!(x.clone().merge(y.clone()).merge(z.clone()), x.merge(y.merge(z)));
}

#[test]
fn route_policy_checks_in_order() {
    let mut policy = RoutePolicy::new(RouteId::new("r1"));
    assert_eq!(policy.evaluate(Amount(10), BasisPoints(400), BasisPoints(10)), reject("route guarantee floor"));
    assert_eq!(policy.evaluate(Amount(10), BasisPoints(600), BasisPoints(1_001)), reject("route fee ceiling"));
    assert_eq!(policy.evaluate(Amount(10), BasisPoints(600), BasisPoints(301)), warn("route fee above soft target"));
    assert_eq!(policy.evaluate(Amount(10), BasisPoints(600), BasisPoints(300)), PolicyDecision::Accept);
    policy.enabled = false;
    assert_eq!(policy.evaluate(Amount(10), BasisPoints(600), BasisPoints(300)), reject("route policy disabled"));
}

#[test]
fn policy_book_defaults_and_trace() {
    let mut book = PolicyBook::new();
    assert_eq!(book.route_policy(&RouteId::new("r9")).route, RouteId::new("r9"));
    book.set_route_policy(RoutePolicy::new(RouteId::new("r1")));
    book.disable_route(&RouteId::new("r1"));
    assert!(!book.route_policy(&RouteId::new("r1")).enabled);
    book.set_asset_policy(AssetPolicy::new(AssetId::new("ELIQ")));
    book.set_operator_policy(OperatorPolicy::new(OperatorId::new("alpha")));
    assert_eq!((book.route_count(), book.asset_count(), book.operator_count()), (1, 1, 1));
    let mut trace = PolicyTrace::new();
    assert_eq!(trace.final_decision(), PolicyDecision::Accept);
    trace.push(warn("soft"));
    assert_eq!(trace.ensure_accept(), Ok(()));
    trace.push(reject("hard"));
    assert_eq!(trace.final_decision(), reject("hard"));
    assert_eq!(trace.ensure_accept(), Err(EclipseError::BidRejected("hard".to_owned())));
}

#[test]
fn time_windows_overlap_symmetrically() {
    assert_eq!(
        TimeWindow::new(Timestamp(5), Timestamp(3)),
        Err(EclipseError::InvalidScenario("invalid time window 5>3".to_owned()))
    );
    let a = TimeWindow::new(Timestamp(0), Timestamp(10)).unwrap();
    let b = TimeWindow::new(Timestamp(10), Timestamp(20)).unwrap();
    let c = TimeWindow::new(Timestamp(11), Timestamp(12)).unwrap();
    assert!(a.overlaps(&b) && b.overlaps(&a));
    assert!(!a.overlaps(&c) && !c.overlaps(&a));
    assert_eq!(a.duration(), 10);
    let wide = a.expand(3);
    assert_eq!((wide.start, wide.end), (Timestamp(0), Timestamp(13)));
    assert!(wide.contains(Timestamp(10)));
}

#[test]
fn scheduler_orders_by_priority_then_sequence() {
    let mut scheduler = BatchScheduler::new();
    let window = TimeWindow::new(Timestamp(0), Timestamp(100)).unwrap();
    scheduler.schedule(BatchId::new("low"), window, BatchPriority::Low).unwrap();
    scheduler.schedule(BatchId::new("crit"), window, BatchPriority::Critical).unwrap();
    scheduler.schedule(BatchId::new("norm"), window, BatchPriority::Normal).unwrap();
    scheduler
        .schedule(BatchId::new("late"), TimeWindow::new(Timestamp(200), Timestamp(300)).unwrap(), BatchPriority::Critical)
        .unwrap();
    assert_eq!(
        scheduler.schedule(BatchId::new("low"), window, BatchPriority::Low),
        Err(EclipseError::DuplicateId("low".to_owned()))
    );
    let live: Vec<&str> = scheduler.live_at(Timestamp(50)).iter().map(|s| s.batch.as_str()).collect();
    assert_eq!(live, vec!["crit", "norm", "low"]);
    assert_eq!(scheduler.next_ready(Timestamp(250)).unwrap().batch.as_str(), "late");
    assert_eq!(scheduler.pending_before(Timestamp(0)).len(), 3);
    assert_eq!(scheduler.get(&BatchId::new("norm")).unwrap().sequence, 3);
    assert!(scheduler.remove(&BatchId::new("low")).is_some());
    assert_eq!(scheduler.count(), 3);
    assert!(scheduler.next_ready(Timestamp(150)).is_none());
}

#[test]
fn epochs_refuse_overlap_and_deadlines_progress() {
    let mut calendar = EpochCalendar::new();
    calendar.add_epoch(Epoch::new(1, TimeWindow::new(Timestamp(0), Timestamp(9)).unwrap(), 4)).unwrap();
    calendar.add_epoch(Epoch::new(2, TimeWindow::new(Timestamp(20), Timestamp(29)).unwrap(), 4)).unwrap();
    assert_eq!(
        calendar.add_epoch(Epoch::new(3, TimeWindow::new(Timestamp(5), Timestamp(25)).unwrap(), 4)),
        Err(EclipseError::InvalidScenario("epoch 3 overlaps epoch 1".to_owned()))
    );
    assert_eq!(calendar.epoch_at(Timestamp(25)).unwrap().index, 2);
    assert!(calendar.epoch_at(Timestamp(15)).is_none());
    assert_eq!(calendar.next_epoch_after(Timestamp(10)).unwrap().index, 2);
    assert!(Epoch::new(9, TimeWindow::new(Timestamp(0), Timestamp(1)).unwrap(), 2).has_capacity(1));
    let deadline = BatchDeadline::new(BatchId::new("b"), Timestamp(10), Timestamp(20)).unwrap();
    assert_eq!(deadline.state_at(Timestamp(10)), DeadlineState::Open);
    assert_eq!(deadline.state_at(Timestamp(11)), DeadlineState::SoftExpired);
    assert_eq!(deadline.state_at(Timestamp(21)), DeadlineState::HardExpired);
}

#[test]
fn buckets_reserve_first_fit_with_haircuts() {
    let mut bucket = PortfolioBucket::new("a", AssetId::new("ELIQ"), Amount(1_000));
    bucket.haircut_bps = BasisPoints(1_000);
    assert_eq!(bucket.effective_free(), Ok(Amount(900)));
    assert_eq!(bucket.reserve(Amount(901)), Err(EclipseError::AmountUnderflow));
    let before = bucket.clone();
    bucket.reserve(Amount(300)).unwrap();
    bucket.release(Amount(300)).unwrap();
    assert_eq!(bucket, before);

    let mut route = RoutePortfolio::new(RouteId::new("r1"));
    route.add_bucket(PortfolioBucket::new("small", AssetId::new("ELIQ"), Amount(100)));
    route.add_bucket(PortfolioBucket::new("large", AssetId::new("ELIQ"), Amount(1_000)));
    assert_eq!(route.reserve_from_first_fit(Amount(500)), Ok("large".to_owned()));
    assert_eq!(route.reserve_from_first_fit(Amount(5_000)), Err(EclipseError::AmountUnderflow));
    assert_eq!(route.total_free(), Ok(Amount(600)));
    assert_eq!(route.total_reserved(), Ok(Amount(500)));
    route.hard_limit = Amount(2_000);
    assert_eq!(route.utilization_bps(), Ok(BasisPoints(2_500)));
    route.soft_limit = Amount(400);
    assert_eq!(route.is_above_soft_limit(), Ok(true));
}

#[test]
fn portfolio_registry_opens_portfolios_on_demand() {
    let mut registry = PortfolioRegistry::new();
    registry.add_bucket(OperatorId::new("alpha"), RouteId::new("r1"), PortfolioBucket::new("a", AssetId::new("ELIQ"), Amount(50)));
    assert_eq!(
        registry.reserve(&OperatorId::new("beta"), &RouteId::new("r1"), Amount(1)),
        Err(EclipseError::OperatorNotFound("beta".to_owned()))
    );
    assert_eq!(registry.reserve(&OperatorId::new("alpha"), &RouteId::new("r1"), Amount(20)), Ok("a".to_owned()));
    let portfolio = registry.portfolio(&OperatorId::new("alpha")).unwrap();
    assert_eq!(portfolio.aggregate_reserved(), Ok(Amount(20)));
    assert_eq!(portfolio.aggregate_free(), Ok(Amount(30)));
    registry.portfolio_mut(OperatorId::new("gamma")).route_mut(RouteId::new("r2")).soft_limit = Amount(7);
    assert_eq!(registry.operator_count(), 2);
    let gamma = registry.portfolio(&OperatorId::new("gamma")).unwrap();
    assert_eq!(gamma.route(&RouteId::new("r2")).unwrap().soft_limit, Amount(7));
    let mut single = OperatorPortfolio::new(OperatorId::new("solo"));
    assert_eq!(single.reserve(&RouteId::new("none"), Amount(1)), Err(EclipseError::RouteNotFound("none".to_owned())));
    assert_eq!(single.route_mut(RouteId::new("x")).buckets.len(), 0);
    assert_eq!(single.route_count(), 1);
}

#[test]
fn telemetry_counts_and_observes() {
    let mut telemetry = TelemetryRegistry::new();
    telemetry.record_batch_settled(&BatchId::new("b1"), &RouteId::new("r1"), &OperatorId::new("alpha"));
    telemetry.record_batch_settled(&BatchId::new("b2"), &RouteId::new("r1"), &OperatorId::new("beta"));
    assert_eq!(telemetry.counter_value("batch.settled"), 2);
    assert_eq!(telemetry.counter_value("batch.settled.route.r1"), 2);
    assert_eq!(telemetry.counter_value("batch.settled.operator.alpha"), 1);
    assert_eq!(telemetry.gauge_value("batch.b1.terminal"), 1);
    telemetry.record_guarantee_margin(&OperatorId::new("alpha"), -15);
    assert_eq!(telemetry.gauge_value("operator.alpha.guarantee_margin"), -15);
    telemetry.record_output(&RouteId::new("r1"), Amount(5_000), Amount(4_990));
    telemetry.counter_mut("custom").increment(4);
    telemetry.counter_mut("custom").increment(1);
    assert_eq!(telemetry.counter_value("custom"), 5);
    telemetry.gauge_mut("g").add(-3);
    assert_eq!(telemetry.gauge_value("g"), -3);
    assert_eq!(telemetry.histogram_mut("settlement.gross", vec![]).count(), 1);
    assert_eq!(telemetry.counter_value("missing"), 0);

    let mut h = Histogram::new("h", vec![10, 100]);
    for v in [5u128, 10, 50, 500] {
        h.observe(v);
    }
    assert_eq!(h.sum(), 565);
    assert_eq!(h.max(), Some(500));
    assert_eq!(h.bucket_counts(), vec![(10, 2), (100, 3)]);

    let mut window = ServiceLevelWindow::new("slo", BasisPoints(9_000));
    assert_eq!(window.observed_bps(), Ok(BasisPoints(0)));
    for ok in [true, true, true, false] {
        window.record(ok);
    }
    assert_eq!(window.observed_bps(), Ok(BasisPoints(7_500)));
    assert_eq!(window.meets_target(), Ok(false));
}

#[test]
fn digests_are_deterministic_and_exact() {
    assert_eq!(Digest::pseudo_blake3("abc").value, "3548c488108dd87bb894aed0c4607a58");
    assert_eq!(Digest::pseudo_blake3("").value, "00000000000000006a09e667f3bcc908");
    assert_eq!(Digest::pseudo_blake3("abc").algorithm, "eclipse-pseudo");
    assert_eq!(Digest::pseudo_blake3("abc"), Digest::pseudo_blake3("abc"));
    assert_ne!(Digest::pseudo_blake3("abc"), Digest::pseudo_blake3("abd"));
    let frame = JournalFrame::new(1, None, "hello");
    assert_eq!(frame.digest.value, "05c04d54e2c5c368b9215c091e73d7b6");
    assert!(frame.verify());
}

#[test]
fn journal_chain_verifies_until_tampered() {
    let mut journal = Journal::new();
    let first = journal.append("open");
    let second = journal.append("settle");
    assert_eq!(first.sequence, 1);
    assert_eq!(second.sequence, 2);
    assert_eq!(second.previous, Some(first.digest.clone()));
    assert!(journal.verify());
    assert_eq!(journal.frames().len(), 2);
    let mut tampered = journal.frames()[1].clone();
    tampered.body = "refund".to_owned();
    assert!(!tampered.verify());
}

#[test]
fn envelopes_check_their_kind() {
    let envelope = Envelope::new("report", 41u32).map(|v| v + 1);
    assert_eq!(envelope.version, 1);
    assert_eq!(envelope.clone(), envelope);
    assert_eq!(envelope_payload(envelope, "report"), Ok(42));
    assert_eq!(
        envelope_payload(Envelope::new("report", 42u32), "receipt"),
        Err(EclipseError::InvalidScenario("expected envelope kind receipt, got report".to_owned()))
    );
}

fn receipt(fee: u128) -> SettlementReceipt {
    SettlementReceipt {
        key: SettlementKey::new(BatchId::new("b1"), BidId::new("x"), RouteId::new("r1")),
        operator: OperatorId::new("alpha"),
        payer: AccountId::new("alice"),
        recipient: AccountId::new("bob"),
        source: AssetId::new("USDX"),
        target: AssetId::new("ELIQ"),
        amount_in: 10_000,
        gross_out: 10_100,
        net_out: 10_100 - fee,
        operator_fee: fee,
        required_guarantee: 1_515,
        attached_guarantee: 1_500,
        fallback: false,
    }
}

#[test]
fn receipt_lines_balance_per_asset() {
    let lines = lines_from_receipt(&receipt(20), AccountId::new("vault"));
    assert_eq!(lines.len(), 6);
    assert_eq!(lines[5].account, AccountId::new("fee-alpha"));
    assert_eq!(lines_from_receipt(&receipt(0), AccountId::new("vault")).len(), 4);
    let ledger = ReconciliationLedger::from_receipts(vec![receipt(20), receipt(0)], AccountId::new("vault"));
    assert_eq!(ledger.assert_conserved(), Ok(()));
    assert_eq!(ledger.by_account(&AccountId::new("vault")).len(), 5);
    assert_eq!(ledger.by_batch(&BatchId::new("b1")).len(), 10);
    let conservation = ledger.asset_conservation();
    assert!(conservation.iter().all(|(_, delta)| *delta == 0));
    let deltas = ledger.account_asset_delta();
    let bob = deltas
        .iter()
        .find(|((account, asset), _)| account.as_str() == "bob" && asset.as_str() == "ELIQ")
        .unwrap();
    assert_eq!(bob.1, 10_080 + 10_100);
}

#[test]
fn unbalanced_ledger_names_the_asset() {
    let mut ledger = ReconciliationLedger::new();
    ledger.push(ReconciliationLine::credit(
        BatchId::new("b"),
        BidId::new("x"),
        RouteId::new("r"),
        AccountId::new("a"),
        AssetId::new("ELIQ"),
        Amount(7),
        "stray",
    ));
    assert_eq!(
        ledger.assert_conserved(),
        Err(EclipseError::InvalidScenario("asset ELIQ reconciliation delta 7".to_owned()))
    );
}

#[test]
fn operator_summaries_group_receipts() {
    let summaries = summarize_by_operator_route(&[receipt(20), receipt(10)]);
    assert_eq!(summaries.len(), 1);
    assert_eq!(summaries[0].guarantee_margin(), 2 * 1_500 - 2 * 1_515);
}

#[test]
fn event_log_filters_by_topic_and_batch() {
    let mut log = EventLog::new();
    log.push(Event::Snapshot { name: "s".to_owned() });
    log.push(Event::BatchClosed { batch: BatchId::new("b1"), status: "settled".to_owned() });
    assert_eq!(log.len(), 2);
    assert_eq!(log.by_topic("snapshot").len(), 1);
    assert_eq!(log.by_batch(&BatchId::new("b1")).len(), 1);
    assert_eq!(log.iter()[1].topic(), "batch");
    assert!(log.iter()[0].batch_id().is_none());
}

#[test]
fn balance_diff_reports_signed_changes() {
    let mut book = AccountBook::new();
    book.create(AccountId::new("a"), AccountRole::User, "A").unwrap();
    book.create(AccountId::new("b"), AccountRole::User, "B").unwrap();
    book.deposit(&AccountId::new("a"), AssetId::new("ELIQ"), Amount(100)).unwrap();
    let before = BalanceObservationSet::from_account_book(&book);
    book.transfer(&AccountId::new("a"), &AccountId::new("b"), &AssetId::new("ELIQ"), Amount(30)).unwrap();
    book.deposit(&AccountId::new("b"), AssetId::new("USDX"), Amount(5)).unwrap();
    let after = BalanceObservationSet::from_account_book(&book);
    assert_eq!(before.get(&AccountId::new("a"), &AssetId::new("ELIQ")), Amount(100));
    assert_eq!(after.get(&AccountId::new("b"), &AssetId::new("ELIQ")), Amount(30));
    let diff = before.diff(&after);
    let changed: Vec<(String, String, i128)> = diff
        .non_zero()
        .iter()
        .map(|e| (e.account.as_str().to_owned(), e.asset.as_str().to_owned(), e.delta))
        .collect();
    assert_eq!(
        changed,
        vec![
            ("a".to_owned(), "ELIQ".to_owned(), -30),
            ("b".to_owned(), "ELIQ".to_owned(), 30),
            ("b".to_owned(), "USDX".to_owned(), 5),
        ]
    );
    assert_eq!(diff.by_account(&AccountId::new("b")).len(), 2);
    assert_eq!(after.total_by_asset(), Ok(vec![(AssetId::new("ELIQ"), Amount(100)), (AssetId::new("USDX"), Amount(5))]));
}

#[test]
fn a_journal_of_many_appends_verifies_in_order() {
    let bodies = ["open", "bid", "select", "settle", "close"];
    let mut journal = Journal::default();
    for body in bodies {
        journal.append(body);
    }
    assert!(journal.verify());
    let frames = journal.frames();
    assert_eq!(frames.len(), bodies.len());
    for (k, frame) in frames.iter().enumerate() {
        assert_eq!(frame.sequence, k as u64 + 1);
        assert_eq!(frame.body, bodies[k]);
        if k == 0 {
            assert_eq!(frame.previous, None);
        } else {
            assert_eq!(frame.previous, Some(frames[k - 1].digest.clone()));
        }
    }
}

#[test]
fn epochs_stay_disjoint_and_ordered_by_index() {
    let mut calendar = EpochCalendar::default();
    let window = |a: u64, b: u64| TimeWindow::new(Timestamp(a), Timestamp(b)).unwrap();
    calendar.add_epoch(Epoch::new(5, window(50, 59), 1)).unwrap();
    calendar.add_epoch(Epoch::new(2, window(20, 29), 1)).unwrap();
    calendar.add_epoch(Epoch::new(9, window(0, 9), 1)).unwrap();
    assert!(calendar.add_epoch(Epoch::new(4, window(29, 30), 1)).is_err());
    assert!(calendar.add_epoch(Epoch::new(1, window(0, 100), 1)).is_err());
    let indices: Vec<u64> = calendar.epochs.iter().map(|e| e.index).collect();
    assert_eq!(indices, vec![2, 5, 9]);
    for (i, a) in calendar.epochs.iter().enumerate() {
        for (j, b) in calendar.epochs.iter().enumerate() {
            if i != j {
                assert!(!a.window.overlaps(&b.window));
            }
        }
    }
}

#[test]
fn default_registries_start_empty() {
    let scheduler = BatchScheduler::default();
    assert_eq!(scheduler.next_sequence, 0);
    assert!(scheduler.is_empty());
    assert_eq!(BatchScheduler::new().next_sequence, 1);
    assert!(EpochCalendar::default().is_empty());
    assert_eq!(PolicyBook::default().route_policies.len(), 0);
    assert_eq!(PortfolioRegistry::default().portfolios.len(), 0);
    assert_eq!(TelemetryRegistry::default().counters.len(), 0);
}
