use eclipsedtl::accounts::{AccountBook, AccountRole, AccountState, BalanceCell, TransferPlan};
use eclipsedtl::amount::{Amount, BasisPoints, Ratio};
use eclipsedtl::asset::{Asset, AssetBook, AssetClass};
use eclipsedtl::error::EclipseError;
use eclipsedtl::ids::{AccountId, AssetId, OperatorId, RouteId};
use eclipsedtl::operators::{GuaranteeState, OperatorBook, OperatorProfile, OperatorStatus};
use eclipsedtl::routes::{RouteBook, RouteClass, RouteLeg, RoutePlan, RouteQuote};

fn eliq() -> AssetId {
    AssetId::new("ELIQ")
}

#[test]
fn balance_cell_moves_between_buckets() {
    let mut cell = BalanceCell::new(Amount(100));
    assert_eq!(cell.cumulative_credit, Amount(100));
    cell.reserve(Amount(30)).unwrap();
    assert_eq!((cell.available, cell.reserved), (Amount(70), Amount(30)));
    assert_eq!(cell.reserve(Amount(71)), Err(EclipseError::AmountUnderflow));
    cell.release(Amount(10)).unwrap();
    assert_eq!((cell.available, cell.reserved), (Amount(80), Amount(20)));
    cell.settle_reserved(Amount(20)).unwrap();
    assert_eq!(cell.reserved, Amount(0));
    assert_eq!(cell.cumulative_debit, Amount(20));
    cell.queue_credit(Amount(5)).unwrap();
    assert_eq!(cell.total(), Ok(Amount(85)));
    assert_eq!(cell.mature_credit(Amount(6)), Err(EclipseError::AmountUnderflow));
    cell.mature_credit(Amount(5)).unwrap();
    assert_eq!(cell.available(), Amount(85));
    assert_eq!(cell.cumulative_credit, Amount(105));
}

#[test]
fn reserve_then_release_restores_the_cell() {
    let start = BalanceCell::new(Amount(50));
    let mut cell = start;
    cell.reserve(Amount(20)).unwrap();
    cell.release(Amount(20)).unwrap();
    assert_eq!(cell, start);
}

#[test]
fn account_debit_reports_insufficient_balance() {
    let mut account = AccountState::new(AccountId::new("alice"), AccountRole::User, "Alice");
    account.credit(eliq(), Amount(10)).unwrap();
    assert_eq!(
        account.debit(&eliq(), Amount(11)),
        Err(EclipseError::InsufficientBalance {
            account: "alice".to_owned(),
            asset: "ELIQ".to_owned(),
            available: 10,
            needed: 11
        })
    );
    account.debit(&eliq(), Amount(4)).unwrap();
    assert_eq!(account.balance(&eliq()), Amount(6));
    assert_eq!(account.balance(&AssetId::new("OTHER")), Amount(0));
    account.frozen = true;
    assert_eq!(
        account.credit(eliq(), Amount(1)),
        Err(EclipseError::InvalidScenario("account alice is frozen".to_owned()))
    );
}

#[test]
fn account_book_transfers_and_keeps_totals() {
    let mut book = AccountBook::new();
    book.create(AccountId::new("alice"), AccountRole::User, "Alice").unwrap();
    book.create(AccountId::new("bob"), AccountRole::User, "Bob").unwrap();
    assert_eq!(
        book.create(AccountId::new("bob"), AccountRole::Vault, "again"),
        Err(EclipseError::DuplicateId("bob".to_owned()))
    );
    book.deposit(&AccountId::new("alice"), eliq(), Amount(100)).unwrap();
    book.transfer(&AccountId::new("alice"), &AccountId::new("bob"), &eliq(), Amount(40)).unwrap();
    assert_eq!(book.balance(&AccountId::new("alice"), &eliq()), Ok(Amount(60)));
    assert_eq!(book.balance(&AccountId::new("bob"), &eliq()), Ok(Amount(40)));
    assert_eq!(book.total_available(&eliq()), Ok(Amount(100)));
    assert_eq!(
        book.transfer(&AccountId::new("alice"), &AccountId::new("carol"), &eliq(), Amount(1)),
        Err(EclipseError::AccountNotFound("carol".to_owned()))
    );
    book.transfer(&AccountId::new("alice"), &AccountId::new("alice"), &eliq(), Amount(1000)).unwrap();
    assert_eq!(book.balance(&AccountId::new("alice"), &eliq()), Ok(Amount(60)));
    assert_eq!(book.views().len(), 2);
    assert_eq!(book.all_accounts()[0].id, AccountId::new("alice"));
}

#[test]
fn account_book_get_mut_changes_one_account() {
    let mut book = AccountBook::new();
    book.create(AccountId::new("alice"), AccountRole::User, "Alice").unwrap();
    assert_eq!(
        book.get_mut(&AccountId::new("nobody")).map(|_| ()),
        Err(EclipseError::AccountNotFound("nobody".to_owned()))
    );
    book.get_mut(&AccountId::new("alice")).unwrap().credit(eliq(), Amount(9)).unwrap();
    assert_eq!(book.balance(&AccountId::new("alice"), &eliq()), Ok(Amount(9)));
}

#[test]
fn transfer_plan_applies_to_the_book() {
    let mut book = AccountBook::new();
    book.create(AccountId::new("a"), AccountRole::User, "A").unwrap();
    book.create(AccountId::new("b"), AccountRole::Treasury, "B").unwrap();
    book.deposit(&AccountId::new("a"), eliq(), Amount(5)).unwrap();
    let plan = TransferPlan::new(AccountId::new("a"), AccountId::new("b"), eliq(), Amount(5), "sweep");
    plan.apply(&mut book).unwrap();
    assert_eq!(book.balance(&AccountId::new("b"), &eliq()), Ok(Amount(5)));
    assert_eq!(AccountRole::OperatorFee.as_str(), "operator_fee");
}

#[test]
fn assets_scale_fee_and_disable() {
    let asset = Asset::new(eliq(), "ELIQ", 6, AssetClass::Native).with_transfer_fee(BasisPoints(25));
    assert_eq!(asset.scale(), Ok(1_000_000));
    assert_eq!(asset.transfer_fee(Amount(10_000)), Ok(Amount(25)));
    let huge = Asset::new(AssetId::new("BIG"), "BIG", 40, AssetClass::Native);
    assert_eq!(huge.scale(), Err(EclipseError::AmountOverflow));
    let mut book = AssetBook::new();
    book.insert(asset).unwrap();
    assert_eq!(
        book.insert(Asset::new(eliq(), "ELIQ", 6, AssetClass::Native)),
        Err(EclipseError::DuplicateId("ELIQ".to_owned()))
    );
    book.disable(&eliq()).unwrap();
    assert_eq!(book.ensure_enabled(&eliq()).map(|_| ()), Err(EclipseError::AssetDisabled("ELIQ".to_owned())));
    book.enable(&eliq()).unwrap();
    assert!(book.ensure_enabled(&eliq()).is_ok());
    assert_eq!(book.get(&AssetId::new("X")).map(|_| ()), Err(EclipseError::AssetNotFound("X".to_owned())));
    book.get_mut(&eliq()).unwrap().decimals = 8;
    assert_eq!(book.get(&eliq()).unwrap().scale(), Ok(100_000_000));
    assert_eq!(book.len(), 1);
    assert_eq!(book.ids(), vec![eliq()]);
}

#[test]
fn guarantee_available_respects_locks_and_floor() {
    let mut g = GuaranteeState::default();
    g.pledge(Amount(1_000)).unwrap();
    g.reserve_floor_bps = BasisPoints(1_000);
    assert_eq!(g.available(), Ok(Amount(900)));
    assert_eq!(g.attach(Amount(2_000)), Ok(Amount(900)));
    assert_eq!(g.available(), Ok(Amount(0)));
    g.release(Amount(400)).unwrap();
    assert_eq!(g.available(), Ok(Amount(0)));
    g.mature_release(Amount(400)).unwrap();
    assert_eq!(g.available(), Ok(Amount(400)));
    assert_eq!(g.release(Amount(501)), Err(EclipseError::AmountUnderflow));
    assert_eq!(g.slash(Amount(5_000)), Ok(Amount(1_000)));
    assert_eq!(g.pledged, Amount(0));
    assert_eq!(g.locked, Amount(0));
}

#[test]
fn operators_attach_guarantee_and_track_exposure() {
    let mut op = OperatorProfile::new(OperatorId::new("alpha"), "Alpha", "primary", AccountId::new("fee-alpha"));
    op.pledge(Amount(500)).unwrap();
    let attachment = op.attach_guarantee(RouteId::new("r1"), eliq(), Amount(800), "b1".to_owned()).unwrap();
    assert_eq!(attachment.requested, Amount(800));
    assert_eq!(attachment.attached, Amount(500));
    assert_eq!(op.exposure.route_exposure(&RouteId::new("r1")), Amount(800));
    assert_eq!(op.exposure.asset_exposure(&eliq()), Amount(800));
    op.settle_route(&RouteId::new("r1"), &eliq(), Amount(300)).unwrap();
    assert_eq!(op.exposure.route_exposure(&RouteId::new("r1")), Amount(500));
    assert_eq!(op.exposure.total_exposure(), Ok(Amount(500)));
    assert!(op.can_bid());
    op.set_status(OperatorStatus::Paused);
    assert!(!op.can_bid());
    assert_eq!(OperatorStatus::Draining.as_str(), "draining");
}

#[test]
fn operator_book_reports_missing_operators() {
    let mut book = OperatorBook::new();
    book.insert(OperatorProfile::new(OperatorId::new("alpha"), "Alpha", "primary", AccountId::new("fee"))).unwrap();
    assert_eq!(book.pledge(&OperatorId::new("beta"), Amount(1)), Err(EclipseError::OperatorNotFound("beta".to_owned())));
    book.pledge(&OperatorId::new("alpha"), Amount(70)).unwrap();
    assert_eq!(book.available_guarantee(&OperatorId::new("alpha")), Ok(Amount(70)));
    book.get_mut(&OperatorId::new("alpha")).unwrap().pledge(Amount(30)).unwrap();
    assert_eq!(book.available_guarantee(&OperatorId::new("alpha")), Ok(Amount(100)));
    book.set_status(&OperatorId::new("alpha"), OperatorStatus::Suspended).unwrap();
    assert!(!book.get(&OperatorId::new("alpha")).unwrap().can_bid());
    assert_eq!(book.views().len(), 1);
}

fn two_leg_route() -> RoutePlan {
    RoutePlan::new(RouteId::new("r1"), "main", RouteClass::DirectInternal, eliq(), AssetId::new("USD"))
        .with_leg(RouteLeg::new(eliq(), AssetId::new("MID"), Ratio::new(2, 1).unwrap(), BasisPoints(100), "dex-a"))
        .with_leg(RouteLeg::new(AssetId::new("MID"), AssetId::new("USD"), Ratio::new(1, 4).unwrap(), BasisPoints(0), "dex-b"))
}

#[test]
fn route_quotes_fold_over_legs() {
    let route = two_leg_route();
    assert_eq!(route.quote(Amount(1_000)), Ok(Amount(500)));
    assert_eq!(route.conservative_quote(Amount(1_000)), Ok(Amount(495)));
    assert_eq!(route.hops(), 2);
    assert_eq!(route.first_venue(), Some("dex-a"));
    assert_eq!(route.last_venue(), Some("dex-b"));
    let quote = RouteQuote::from_route(&route, Amount(1_000)).unwrap();
    assert_eq!((quote.gross_out, quote.conservative_out, quote.hops), (500, 495, 2));
    assert_eq!(
        route.quote(Amount(0)),
        Err(EclipseError::BidRejected("amount 0 outside route limits".to_owned()))
    );
    let direct = RoutePlan::new(RouteId::new("d"), "direct", RouteClass::DirectInternal, eliq(), eliq());
    assert_eq!(direct.quote(Amount(77)), Ok(Amount(77)));
}

#[test]
fn route_book_filters_and_orders_candidates() {
    let mut book = RouteBook::new();
    book.insert(two_leg_route().with_fallback_rank(50)).unwrap();
    book.insert(
        RoutePlan::new(RouteId::new("r2"), "backup", RouteClass::DirectInternal, eliq(), AssetId::new("USD"))
            .with_fallback_rank(10),
    )
    .unwrap();
    book.insert(RoutePlan::new(RouteId::new("r3"), "other", RouteClass::DirectInternal, AssetId::new("USD"), eliq())).unwrap();
    assert_eq!(book.insert(two_leg_route()), Err(EclipseError::DuplicateId("r1".to_owned())));
    assert_eq!(book.candidates(&eliq(), &AssetId::new("USD")).len(), 2);
    let ordered = book.fallback_candidates(&eliq(), &AssetId::new("USD"));
    assert_eq!(ordered[0].id, RouteId::new("r2"));
    assert_eq!(ordered[1].id, RouteId::new("r1"));
    book.disable(&RouteId::new("r2")).unwrap();
    assert_eq!(book.candidates(&eliq(), &AssetId::new("USD")).len(), 1);
    assert_eq!(
        book.get(&RouteId::new("r2")).unwrap().quote(Amount(5)),
        Err(EclipseError::RouteDisabled("r2".to_owned()))
    );
    assert_eq!(book.enable(&RouteId::new("zz")), Err(EclipseError::RouteNotFound("zz".to_owned())));
    book.get_mut(&RouteId::new("r3")).unwrap().fallback_rank = 1;
    assert_eq!(book.get(&RouteId::new("r3")).unwrap().fallback_rank, 1);
}

#[test]
fn a_deposit_refused_after_the_withdrawal_leaves_the_sender_debited() {
    let mut book = AccountBook::new();
    book.create(AccountId::new("alice"), AccountRole::User, "Alice").unwrap();
    book.create(AccountId::new("bob"), AccountRole::User, "Bob").unwrap();
    book.deposit(&AccountId::new("alice"), eliq(), Amount(100)).unwrap();
    book.get_mut(&AccountId::new("bob")).unwrap().frozen = true;
    assert_eq!(
        book.transfer(&AccountId::new("alice"), &AccountId::new("bob"), &eliq(), Amount(40)),
        Err(EclipseError::InvalidScenario("account bob is frozen".to_owned()))
    );
    assert_eq!(book.balance(&AccountId::new("alice"), &eliq()), Ok(Amount(60)));
    assert_eq!(book.get(&AccountId::new("alice")).unwrap().balance_cell(&eliq()).cumulative_debit, Amount(40));
    assert_eq!(book.balance(&AccountId::new("bob"), &eliq()), Ok(Amount(0)));
    book.deposit(&AccountId::new("carol_missing"), eliq(), Amount(1)).unwrap_err();
    assert_eq!(
        book.transfer(&AccountId::new("alice"), &AccountId::new("bob"), &eliq(), Amount(101)),
        Err(EclipseError::InsufficientBalance {
            account: "alice".to_owned(),
            asset: "ELIQ".to_owned(),
            available: 60,
            needed: 101
        })
    );
}

#[test]
fn the_conservative_quote_never_exceeds_the_quote() {
    let route = two_leg_route();
    for amount in [1u128, 7, 99, 1_000, 12_345, 1_000_000] {
        let quote = route.quote(Amount(amount)).unwrap();
        let conservative = route.conservative_quote(Amount(amount)).unwrap();
        assert!(conservative.0 <= quote.0);
    }
}

#[test]
fn cloned_books_compare_equal() {
    let mut book = AccountBook::default();
    book.create(AccountId::new("a"), AccountRole::Treasury, "a").unwrap();
    book.deposit(&AccountId::new("a"), eliq(), Amount(40)).unwrap();
    let copy = book.clone();
    assert_eq!(copy.get(&AccountId::new("a")).unwrap(), book.get(&AccountId::new("a")).unwrap());
    assert_eq!(copy.balance(&AccountId::new("a"), &eliq()), Ok(Amount(40)));
    assert!(RouteBook::default().list().is_empty());
    assert!(OperatorBook::default().list().is_empty());
    assert!(AssetBook::default().list().is_empty());
}
