use eclipsedtl::accounts::{AccountRole, AccountView};
use eclipsedtl::asset::AssetClass;
use eclipsedtl::error::EclipseError;
use eclipsedtl::events::Event;
use eclipsedtl::ids::{AccountId, AssetId, BatchId, BidId, OperatorId, RouteId};
use eclipsedtl::operators::OperatorStatus;
use eclipsedtl::reconciliation::ReconciliationLedger;
use eclipsedtl::routes::RouteClass;
use eclipsedtl::scenario::{run_scenario, ScenarioAction, ScenarioFile, ScenarioRuntime};

fn asset(id: &str) -> ScenarioAction {
    ScenarioAction::RegisterAsset {
        id: AssetId::new(id),
        symbol: id.to_owned(),
        decimals: 6,
        class: AssetClass::Stable,
        transfer_fee_bps: None,
        risk_weight_bps: None,
    }
}

fn account(id: &str, role: AccountRole) -> ScenarioAction {
    ScenarioAction::CreateAccount { id: AccountId::new(id), role, label: None }
}

fn deposit(account: &str, asset: &str, amount: u64) -> ScenarioAction {
    ScenarioAction::Deposit { account: AccountId::new(account), asset: AssetId::new(asset), amount }
}

fn operator(id: &str, pledge: u64) -> Vec<ScenarioAction> {
    vec![
        account(&format!("fee-{id}"), AccountRole::OperatorFee),
        ScenarioAction::RegisterOperator {
            id: OperatorId::new(id),
            display_name: id.to_owned(),
            lane: "primary".to_owned(),
            fee_account: AccountId::new(&format!("fee-{id}")),
            reliability_bps: None,
            fee_floor_bps: None,
        },
        ScenarioAction::PledgeGuarantee { operator: OperatorId::new(id), amount: pledge },
    ]
}

fn bid(id: &str, operator: &str, price_numerator: u64) -> ScenarioAction {
    ScenarioAction::SubmitBid {
        id: BidId::new(id),
        batch: BatchId::new("batch-001"),
        route: RouteId::new("route-main"),
        operator: OperatorId::new(operator),
        price_numerator,
        price_denominator: 100,
        fee_bps: 20,
        guarantee_bps: 1_500,
        received_at: 110,
        expires_at: 450,
        lane: None,
        quote_ref: None,
    }
}

fn setup(vault_target: u64, allow_fallback: bool) -> Vec<ScenarioAction> {
    let mut actions = vec![
        asset("USDX"),
        asset("ELIQ"),
        account("alice", AccountRole::User),
        account("bob", AccountRole::User),
        account("vault", AccountRole::Vault),
        deposit("alice", "USDX", 10_000),
        deposit("vault", "ELIQ", vault_target),
    ];
    actions.extend(operator("alpha", 5_000));
    actions.extend(operator("beta", 5_000));
    actions.push(ScenarioAction::RegisterRoute {
        id: RouteId::new("route-main"),
        label: "main".to_owned(),
        class: RouteClass::DirectInternal,
        source: AssetId::new("USDX"),
        target: AssetId::new("ELIQ"),
        price_numerator: 1,
        price_denominator: 1,
        max_slippage_bps: None,
        min_input: None,
        max_input: None,
        guarantee_bps_floor: None,
        liquidity_floor: None,
        fallback_rank: None,
        venue: None,
    });
    actions.push(ScenarioAction::OpenBatch {
        id: BatchId::new("batch-001"),
        payer: AccountId::new("alice"),
        recipient: AccountId::new("bob"),
        source: AssetId::new("USDX"),
        target: AssetId::new("ELIQ"),
        amount_in: 10_000,
        min_out: 9_000,
        opened_at: 100,
        deadline: 500,
        allow_fallback: Some(allow_fallback),
        memo: None,
    });
    actions
}

fn available(accounts: &[AccountView], account: &str, asset: &str) -> u128 {
    let view = accounts.iter().find(|v| v.id.as_str() == account).unwrap();
    view.balances.iter().find(|b| b.asset.as_str() == asset).map(|b| b.available).unwrap_or(0)
}

#[test]
fn normal_batch_settles_with_the_documented_receipt() {
    let mut actions = setup(50_000, false);
    actions.push(bid("bid-alpha", "alpha", 101));
    actions.push(ScenarioAction::SelectWinner { batch: BatchId::new("batch-001"), now: 200 });
    actions.push(ScenarioAction::SettleBatch { batch: BatchId::new("batch-001"), now: 210, allow_fallback: None });
    actions.push(ScenarioAction::Snapshot { name: "final".to_owned() });
    let report = run_scenario(ScenarioFile { name: "normal".to_owned(), vault_account: None, actions }).unwrap();

    assert_eq!(report.name, "normal");
    assert_eq!(report.receipts.len(), 1);
    let receipt = &report.receipts[0];
    assert_eq!(receipt.operator, OperatorId::new("alpha"));
    assert_eq!(receipt.amount_in, 10_000);
    assert_eq!(receipt.gross_out, 10_100);
    assert_eq!(receipt.net_out, 10_080);
    assert_eq!(receipt.operator_fee, 20);
    assert_eq!(receipt.required_guarantee, 1_515);
    assert_eq!(receipt.attached_guarantee, 1_515);
    assert!(!receipt.fallback);
    assert_eq!(receipt.key.label(), "batch-001/bid-alpha/route-main");

    assert_eq!(available(&report.accounts, "alice", "USDX"), 0);
    assert_eq!(available(&report.accounts, "vault", "USDX"), 10_000);
    assert_eq!(available(&report.accounts, "vault", "ELIQ"), 50_000 - 10_100);
    assert_eq!(available(&report.accounts, "bob", "ELIQ"), 10_080);
    assert_eq!(available(&report.accounts, "fee-alpha", "ELIQ"), 20);
    let total = |asset: &str| -> u128 {
        report.accounts.iter().map(|v| available(std::slice::from_ref(v), v.id.as_str(), asset)).sum()
    };
    assert_eq!(total("ELIQ"), 50_000);
    assert_eq!(total("USDX"), 10_000);

    assert_eq!(report.batches[0].status, "settled");
    assert_eq!(report.batches[0].selected_bid, Some(BidId::new("bid-alpha")));
    assert_eq!(report.bids[0].status, "settled");
    assert_eq!(report.bids[0].expected_net, 10_080);
    assert_eq!(report.snapshots.len(), 1);
    assert_eq!(report.snapshots[0].name, "final");
    assert!(matches!(report.events.last(), Some(Event::Snapshot { .. })));
    assert!(report
        .events
        .iter()
        .any(|e| matches!(e, Event::SettlementCompleted { bid, .. } if bid.as_str() == "bid-alpha")));
}

#[test]
fn settlement_falls_back_to_the_next_admitted_bid() {
    let mut actions = setup(10_150, true);
    actions.push(bid("bid-alpha", "alpha", 101));
    actions.push(bid("bid-beta", "beta", 100));
    actions.push(ScenarioAction::SelectWinner { batch: BatchId::new("batch-001"), now: 200 });
    actions.push(ScenarioAction::Transfer {
        from: AccountId::new("vault"),
        to: AccountId::new("bob"),
        asset: AssetId::new("ELIQ"),
        amount: 100,
    });
    actions.push(ScenarioAction::SettleBatch { batch: BatchId::new("batch-001"), now: 210, allow_fallback: None });
    let report = run_scenario(ScenarioFile { name: "fallback".to_owned(), vault_account: None, actions }).unwrap();

    let receipt = &report.receipts[0];
    assert!(receipt.fallback);
    assert_eq!(receipt.operator, OperatorId::new("beta"));
    assert_eq!(receipt.gross_out, 10_000);
    assert_eq!(receipt.operator_fee, 20);
    assert_eq!(receipt.net_out, 9_980);
    assert_eq!(report.batches[0].fallback_bid, Some(BidId::new("bid-beta")));
    let alpha = report.bids.iter().find(|b| b.id.as_str() == "bid-alpha").unwrap();
    let beta = report.bids.iter().find(|b| b.id.as_str() == "bid-beta").unwrap();
    assert_eq!(alpha.status, "superseded");
    assert_eq!(beta.status, "settled");
    assert!(report.events.iter().any(|e| matches!(
        e,
        Event::SettlementFallback { from_bid, to_bid, .. }
            if from_bid.as_str() == "bid-alpha" && to_bid.as_str() == "bid-beta"
    )));
    assert_eq!(available(&report.accounts, "bob", "ELIQ"), 100 + 9_980);
}

#[test]
fn failed_settlement_without_fallback_closes_the_batch() {
    let mut runtime = ScenarioRuntime::new("failing", AccountId::new("vault"));
    for action in setup(10_150, false) {
        runtime.apply(action).unwrap();
    }
    runtime.apply(bid("bid-alpha", "alpha", 101)).unwrap();
    runtime.apply(ScenarioAction::SelectWinner { batch: BatchId::new("batch-001"), now: 200 }).unwrap();
    runtime
        .apply(ScenarioAction::Transfer {
            from: AccountId::new("vault"),
            to: AccountId::new("bob"),
            asset: AssetId::new("ELIQ"),
            amount: 100,
        })
        .unwrap();
    let result = runtime.apply(ScenarioAction::SettleBatch {
        batch: BatchId::new("batch-001"),
        now: 210,
        allow_fallback: None,
    });
    assert_eq!(
        result,
        Err(EclipseError::InsufficientBalance {
            account: "vault".to_owned(),
            asset: "ELIQ".to_owned(),
            available: 10_050,
            needed: 10_100
        })
    );
    let report = runtime.report();
    assert_eq!(report.batches[0].status, "failed");
    assert!(report.receipts.is_empty());
}

#[test]
fn bids_are_rejected_for_missing_vault_liquidity() {
    let mut runtime = ScenarioRuntime::new("thin", AccountId::new("vault"));
    for action in setup(5_000, false) {
        runtime.apply(action).unwrap();
    }
    runtime.apply(bid("bid-alpha", "alpha", 101)).unwrap();
    let report = runtime.report();
    assert_eq!(report.bids[0].status, "rejected");
    assert_eq!(report.bids[0].reject_reason, Some("vault liquidity".to_owned()));
    assert_eq!(
        runtime.apply(ScenarioAction::SelectWinner { batch: BatchId::new("batch-001"), now: 200 }),
        Err(EclipseError::NoEligibleBids("batch-001".to_owned()))
    );
}

#[test]
fn paused_operators_cannot_bid() {
    let mut actions = setup(50_000, false);
    actions.push(ScenarioAction::SetOperatorStatus { operator: OperatorId::new("alpha"), status: OperatorStatus::Paused });
    actions.push(bid("bid-alpha", "alpha", 101));
    let result = run_scenario(ScenarioFile { name: "paused".to_owned(), vault_account: None, actions });
    assert_eq!(result.map(|_| ()), Err(EclipseError::OperatorUnavailable("alpha".to_owned())));
}

#[test]
fn duplicate_registration_stops_the_scenario() {
    let actions = vec![asset("USDX"), asset("USDX")];
    let result = run_scenario(ScenarioFile { name: "dup".to_owned(), vault_account: None, actions });
    assert_eq!(result.map(|_| ()), Err(EclipseError::DuplicateId("USDX".to_owned())));
}

#[test]
fn operator_registration_needs_its_fee_account() {
    let actions = vec![ScenarioAction::RegisterOperator {
        id: OperatorId::new("alpha"),
        display_name: "Alpha".to_owned(),
        lane: "primary".to_owned(),
        fee_account: AccountId::new("fee-alpha"),
        reliability_bps: Some(9_000),
        fee_floor_bps: None,
    }];
    let result = run_scenario(ScenarioFile { name: "nofee".to_owned(), vault_account: None, actions });
    assert_eq!(result.map(|_| ()), Err(EclipseError::AccountNotFound("fee-alpha".to_owned())));
}

fn run_until_selected(vault_target: u64, allow_fallback: bool) -> ScenarioRuntime {
    let mut runtime = ScenarioRuntime::new("steps", AccountId::new("vault"));
    for action in setup(vault_target, allow_fallback) {
        runtime.apply(action).unwrap();
    }
    runtime.apply(bid("bid-alpha", "alpha", 101)).unwrap();
    runtime.apply(ScenarioAction::SelectWinner { batch: BatchId::new("batch-001"), now: 200 }).unwrap();
    runtime
}

fn settle(runtime: &mut ScenarioRuntime) -> Result<(), EclipseError> {
    runtime.apply(ScenarioAction::SettleBatch { batch: BatchId::new("batch-001"), now: 210, allow_fallback: None })
}

#[test]
fn a_settled_batch_is_not_settled_again() {
    let mut runtime = run_until_selected(50_000, false);
    settle(&mut runtime).unwrap();
    let before = runtime.report();
    assert_eq!(settle(&mut runtime), Err(EclipseError::BatchClosed("batch-001".to_owned())));
    let after = runtime.report();
    assert_eq!(after.batches[0].status, "settled");
    assert_eq!(available(&after.accounts, "bob", "ELIQ"), available(&before.accounts, "bob", "ELIQ"));
    assert_eq!(after.receipts.len(), 1);
}

#[test]
fn fallback_without_alternative_fails_the_batch() {
    let mut runtime = run_until_selected(10_150, true);
    runtime
        .apply(ScenarioAction::Transfer {
            from: AccountId::new("vault"),
            to: AccountId::new("bob"),
            asset: AssetId::new("ELIQ"),
            amount: 100,
        })
        .unwrap();
    assert_eq!(settle(&mut runtime), Err(EclipseError::NoEligibleBids("batch-001".to_owned())));
    let report = runtime.report();
    assert_eq!(report.batches[0].status, "failed");
    assert_eq!(report.batches[0].closed_at, Some(210));
    assert_eq!(report.batches[0].fail_reason, Some("no eligible bids for batch-001".to_owned()));
}

#[test]
fn settlement_without_fee_account_moves_nothing() {
    let mut actions = setup(50_000, false);
    actions.push(account("treasury", AccountRole::Treasury));
    actions.push(ScenarioAction::RegisterOperator {
        id: OperatorId::new("gamma"),
        display_name: "gamma".to_owned(),
        lane: "primary".to_owned(),
        fee_account: AccountId::new("treasury"),
        reliability_bps: None,
        fee_floor_bps: None,
    });
    actions.push(ScenarioAction::PledgeGuarantee { operator: OperatorId::new("gamma"), amount: 5_000 });
    actions.push(bid("bid-gamma", "gamma", 101));
    actions.push(ScenarioAction::SelectWinner { batch: BatchId::new("batch-001"), now: 200 });
    let mut runtime = ScenarioRuntime::new("nofee", AccountId::new("vault"));
    for action in actions {
        runtime.apply(action).unwrap();
    }
    assert_eq!(settle(&mut runtime), Err(EclipseError::AccountNotFound("fee-gamma".to_owned())));
    let report = runtime.report();
    assert_eq!(available(&report.accounts, "alice", "USDX"), 10_000);
    assert_eq!(available(&report.accounts, "vault", "ELIQ"), 50_000);
    assert_eq!(available(&report.accounts, "bob", "ELIQ"), 0);
    assert_eq!(report.batches[0].status, "failed");
}

#[test]
fn receipt_lines_record_the_balance_movements() {
    let mut runtime = run_until_selected(50_000, false);
    let before = runtime.report();
    settle(&mut runtime).unwrap();
    let after = runtime.report();
    let receipt = after.receipts[0].clone();
    let ledger = ReconciliationLedger::from_receipt(&receipt, AccountId::new("vault"));
    let deltas = ledger.account_asset_delta();
    assert!(!deltas.is_empty());
    for view in &after.accounts {
        for asset in ["USDX", "ELIQ"] {
            let moved = available(&after.accounts, view.id.as_str(), asset) as i128
                - available(&before.accounts, view.id.as_str(), asset) as i128;
            let recorded = deltas
                .iter()
                .find(|((account, a), _)| account.as_str() == view.id.as_str() && a.as_str() == asset)
                .map(|(_, d)| *d)
                .unwrap_or(0);
            assert_eq!(moved, recorded, "{} {}", view.id.as_str(), asset);
        }
    }
}
