use eclipsedtl::accounts::{AccountBook, AccountRole};
use eclipsedtl::amount::{Amount, BasisPoints};
use eclipsedtl::batch::{BatchBook, BatchOrder, BatchStatus};
use eclipsedtl::error::EclipseError;
use eclipsedtl::ids::{AccountId, AssetId, BatchId, RouteId};
use eclipsedtl::risk::{RiskConfig, RiskEngine};
use eclipsedtl::routes::{RouteClass, RoutePlan};

fn order(id: &str) -> BatchOrder {
    BatchOrder::new(
        BatchId::new(id),
        AccountId::new("alice"),
        AccountId::new("bob"),
        AssetId::new("USDX"),
        AssetId::new("ELIQ"),
        Amount(1_000),
        Amount(900),
        100,
        200,
    )
}

#[test]
fn batch_orders_are_live_inside_their_window() {
    let o = order("b1").with_fallback(true).with_memo("desk");
    assert!(o.allow_fallback);
    assert_eq!(o.memo, "desk");
    assert!(o.is_live_at(100));
    assert!(o.is_live_at(200));
    assert!(!o.is_live_at(201));
    assert!(o.is_live_at(0));
}

#[test]
fn batch_book_closes_batches_for_good() {
    let mut book = BatchBook::new();
    book.insert(order("b1")).unwrap();
    assert_eq!(book.insert(order("b1")), Err(EclipseError::DuplicateId("b1".to_owned())));
    assert_eq!(book.order(&BatchId::new("b2")).map(|_| ()), Err(EclipseError::BatchNotFound("b2".to_owned())));
    book.cancel(&BatchId::new("b1"), 150, "operator request").unwrap();
    let record = book.get(&BatchId::new("b1")).unwrap();
    assert_eq!(record.status, BatchStatus::Cancelled);
    assert_eq!(record.closed_at, Some(150));
    assert_eq!(record.fail_reason, Some("operator request".to_owned()));
    assert_eq!(record.ensure_open(), Err(EclipseError::BatchClosed("b1".to_owned())));
    assert!(BatchStatus::Failed.is_terminal());
    assert!(!BatchStatus::Selected.is_terminal());
    assert_eq!(BatchStatus::Settled.as_str(), "settled");
    book.insert(order("b3")).unwrap();
    book.close_failed(&BatchId::new("b3"), 160, "vault dry").unwrap();
    let views = book.views();
    assert_eq!(views.len(), 2);
    assert_eq!(views[1].status, "failed");
    assert_eq!(views[1].fail_reason, Some("vault dry".to_owned()));
    book.get_mut(&BatchId::new("b3")).unwrap().closed_at = Some(170);
    assert_eq!(book.get(&BatchId::new("b3")).unwrap().closed_at, Some(170));
}

#[test]
fn required_guarantee_takes_the_highest_floor_and_rounds_up() {
    let risk = RiskEngine::new(RiskConfig::with_vault(AccountId::new("vault")));
    let route = RoutePlan::new(RouteId::new("r"), "r", RouteClass::DirectInternal, AssetId::new("USDX"), AssetId::new("ELIQ"));
    assert_eq!(risk.required_guarantee(Amount(10_100), &route, BasisPoints(1_500)), Ok(Amount(1_515)));
    assert_eq!(risk.required_guarantee(Amount(10_001), &route, BasisPoints(100)), Ok(Amount(501)));
    let floored = route.with_guarantee_floor(BasisPoints(2_000));
    assert_eq!(risk.required_guarantee(Amount(100), &floored, BasisPoints(1_500)), Ok(Amount(20)));
}

#[test]
fn preflight_checks_floor_then_vault() {
    let risk = RiskEngine::default_with_vault(AccountId::new("vault"));
    let route = RoutePlan::new(RouteId::new("r"), "r", RouteClass::DirectInternal, AssetId::new("USDX"), AssetId::new("ELIQ"));
    let mut accounts = AccountBook::new();
    accounts.create(AccountId::new("vault"), AccountRole::Vault, "vault").unwrap();
    accounts.deposit(&AccountId::new("vault"), AssetId::new("ELIQ"), Amount(50)).unwrap();
    assert_eq!(
        risk.preflight_settlement(&route, &accounts, Amount(100), Amount(90), Amount(80)),
        Err(EclipseError::SettlementFloor { net: 80, minimum: 90 })
    );
    assert_eq!(
        risk.preflight_settlement(&route, &accounts, Amount(100), Amount(90), Amount(95)),
        Err(EclipseError::InsufficientBalance {
            account: "vault".to_owned(),
            asset: "ELIQ".to_owned(),
            available: 50,
            needed: 100
        })
    );
    assert_eq!(risk.preflight_settlement(&route, &accounts, Amount(50), Amount(40), Amount(45)), Ok(()));
}
