use eclipsedtl::amount::{
    checked_difference, checked_sum, mul_div_ceil, mul_div_floor, Amount, AmountBreakdown, AmountWindow,
    BasisPoints, Ratio,
};
use eclipsedtl::error::EclipseError;
use eclipsedtl::ids::{AccountId, AssetId, AssetPair, BatchId, BidId, IdPair, OperatorId, RouteId, RouteKey, SettlementKey};
use std::cmp::Ordering;

#[test]
fn checked_arithmetic_reports_each_error() {
    assert_eq!(Amount(2).checked_add(Amount(3)), Ok(Amount(5)));
    assert_eq!(Amount(u128::MAX).checked_add(Amount(1)), Err(EclipseError::AmountOverflow));
    assert_eq!(Amount(1).checked_sub(Amount(2)), Err(EclipseError::AmountUnderflow));
    assert_eq!(Amount(7).checked_sub(Amount(2)), Ok(Amount(5)));
    assert_eq!(Amount(u128::MAX).checked_mul(2), Err(EclipseError::AmountOverflow));
    assert_eq!(Amount(10).checked_div(0), Err(EclipseError::DivisionByZero));
    assert_eq!(Amount(10).checked_div(3), Ok(Amount(3)));
}

#[test]
fn saturating_and_ordering_helpers() {
    assert_eq!(Amount(u128::MAX).saturating_add(Amount(1)), Amount(u128::MAX));
    assert_eq!(Amount(1).saturating_sub(Amount(2)), Amount(0));
    assert_eq!(Amount(4).min(Amount(9)), Amount(4));
    assert_eq!(Amount(4).max(Amount(9)), Amount(9));
    assert_eq!(Amount(5).clamp(Amount(6), Amount(9)), Amount(6));
    assert_eq!(Amount(12).clamp(Amount(6), Amount(9)), Amount(9));
    assert_eq!(Amount(5).cmp_raw(6), Ordering::Less);
    assert_eq!(Amount(6).cmp_raw(6), Ordering::Equal);
    assert!(Amount(0).is_zero());
    assert_eq!(Amount::new(8).raw(), 8);
}

#[test]
fn amounts_convert_from_plain_integers() {
    assert_eq!(Amount::from(5u128), Amount(5));
    let from_u64: Amount = 7u64.into();
    assert_eq!(from_u64, Amount(7));
}

#[test]
fn mul_div_rounds_down_and_up() {
    assert_eq!(mul_div_floor(Amount(10), 3, 4), Ok(Amount(7)));
    assert_eq!(mul_div_ceil(Amount(10), 3, 4), Ok(Amount(8)));
    assert_eq!(mul_div_ceil(Amount(8), 1, 4), Ok(Amount(2)));
    assert_eq!(mul_div_floor(Amount(1), 1, 0), Err(EclipseError::DivisionByZero));
    assert_eq!(mul_div_ceil(Amount(u128::MAX), 2, 3), Err(EclipseError::AmountOverflow));
}

#[test]
fn basis_points_are_bounded_and_apply_to_amounts() {
    assert_eq!(BasisPoints::new(10_001), Err(EclipseError::InvalidBasisPoints(10_001)));
    let bps = BasisPoints::new(2_500).unwrap();
    assert_eq!(bps.checked_amount_floor(Amount(1_001)), Ok(Amount(250)));
    assert_eq!(bps.checked_amount_ceil(Amount(1_001)), Ok(Amount(251)));
    assert_eq!(bps.complement(), BasisPoints(7_500));
    assert_eq!(bps.complement().complement(), bps);
    assert_eq!(BasisPoints(12_000).complement(), BasisPoints(0));
    assert!(BasisPoints(0).is_zero());
}

#[test]
fn ratios_apply_invert_and_multiply() {
    assert_eq!(Ratio::new(1, 0), Err(EclipseError::DivisionByZero));
    let r = Ratio::new(3, 2).unwrap();
    assert_eq!(r.apply_floor(Amount(5)), Ok(Amount(7)));
    assert_eq!(r.apply_ceil(Amount(5)), Ok(Amount(8)));
    assert_eq!(r.invert(), Ok(Ratio { numerator: 2, denominator: 3 }));
    assert_eq!(Ratio::new(0, 5).unwrap().invert(), Err(EclipseError::DivisionByZero));
    assert_eq!(r.multiply(Ratio::new(5, 7).unwrap()), Ok(Ratio { numerator: 15, denominator: 14 }));
    assert_eq!(Ratio::new(1, 3).unwrap().as_bps_floor(), Ok(BasisPoints(3_333)));
    assert_eq!(r.as_bps_floor(), Ok(BasisPoints(10_000)));
    assert_eq!(Ratio::one().apply_floor(Amount(9)), Ok(Amount(9)));
}

#[test]
fn ratio_inversion_twice_gives_the_ratio_back() {
    let r = Ratio::new(7, 4).unwrap();
    assert_eq!(r.invert().unwrap().invert(), Ok(r));
}

#[test]
fn windows_contain_their_bounds_and_expand() {
    assert_eq!(AmountWindow::new(Amount(5), Amount(3)), Err(EclipseError::AmountUnderflow));
    let w = AmountWindow::new(Amount(3), Amount(5)).unwrap();
    assert!(w.contains(Amount(3)));
    assert!(w.contains(Amount(5)));
    assert!(!w.contains(Amount(6)));
    assert_eq!(w.width(), Ok(Amount(2)));
    let wider = w.expand(Amount(4)).unwrap();
    assert_eq!(wider, AmountWindow { lower: Amount(0), upper: Amount(9) });
    assert!(wider.contains(Amount(3)) && wider.contains(Amount(5)));
}

#[test]
fn breakdown_splits_gross_into_fee_and_net() {
    let b = AmountBreakdown::new(Amount(1_000), BasisPoints(30)).unwrap();
    assert_eq!(b.fee, Amount(3));
    assert_eq!(b.net, Amount(997));
    assert_eq!(b.fee_ratio(), Ok(Ratio { numerator: 3, denominator: 1_000 }));
    assert_eq!(AmountBreakdown::with_fee(Amount(5), Amount(6)), Err(EclipseError::AmountUnderflow));
    let empty = AmountBreakdown::with_fee(Amount(0), Amount(0)).unwrap();
    assert!(empty.is_empty());
    assert_eq!(empty.fee_ratio(), Ok(Ratio::one()));
}

#[test]
fn sums_and_differences_fold_with_checks() {
    assert_eq!(checked_sum(&[Amount(1), Amount(2), Amount(3)]), Ok(Amount(6)));
    assert_eq!(checked_sum(&[]), Ok(Amount(0)));
    assert_eq!(checked_sum(&[Amount(u128::MAX), Amount(1)]), Err(EclipseError::AmountOverflow));
    assert_eq!(checked_difference(Amount(10), &[Amount(3), Amount(4)]), Ok(Amount(3)));
    assert_eq!(checked_difference(Amount(3), &[Amount(4)]), Err(EclipseError::AmountUnderflow));
}

#[test]
fn identifiers_format_and_tag() {
    assert_eq!(AssetId::generated(42).as_str(), "asset-00000042");
    assert_eq!(AccountId::generated(7).as_str(), "acct-00000007");
    assert_eq!(OperatorId::generated(123_456_789).as_str(), "op-123456789");
    assert_eq!(RouteId::generated(1).as_str(), "route-00000001");
    assert_eq!(BatchId::generated(0).as_str(), "batch-00000000");
    assert_eq!(BidId::generated(9).as_str(), "bid-00000009");
    assert_eq!(AssetId::new("ELIQ").tagged("fee"), "ELIQ:fee");
    assert!(AccountId::new("   ").is_empty());
    assert!(!AccountId::new(" a ").is_empty());
    assert!(RouteId::generated(3).starts_with_prefix());
    assert!(!RouteId::new("rte-1").starts_with_prefix());
    assert_eq!(BidId::new("b-1").into_inner(), "b-1".to_owned());
}

#[test]
fn pairs_and_keys_render_labels() {
    let pair = AssetPair::new(AssetId::new("A"), AssetId::new("B"));
    assert_eq!(pair.key(), "A>B");
    assert_eq!(pair.reversed().key(), "B>A");
    assert!(pair.contains(&AssetId::new("B")));
    assert!(!pair.contains(&AssetId::new("C")));
    let key = RouteKey::new(RouteId::new("r1"), AssetId::new("A"), AssetId::new("B"));
    assert_eq!(key.label(), "r1:A>B");
    assert!(key.matches_pair(&pair));
    assert!(!key.matches_pair(&pair.reversed()));
    let settlement = SettlementKey::new(BatchId::new("b1"), BidId::new("x"), RouteId::new("r1"));
    assert_eq!(settlement.label(), "b1/x/r1");
    let ids = IdPair::new(1u32, 2u32).map_left(5u32).map_right(6u32);
    assert_eq!(ids, IdPair { left: 5, right: 6 });
}

#[test]
fn error_codes_and_classes() {
    assert_eq!(EclipseError::AmountOverflow.code(), "AMOUNT_OVERFLOW");
    assert_eq!(EclipseError::RouteNotFound("r".to_owned()).code(), "ROUTE_NOT_FOUND");
    assert_eq!(EclipseError::SettlementFloor { net: 1, minimum: 2 }.code(), "SETTLEMENT_FLOOR");
    assert!(EclipseError::NoEligibleBids("b".to_owned()).is_retryable());
    assert!(!EclipseError::AmountOverflow.is_retryable());
    assert!(EclipseError::AssetNotFound("a".to_owned()).is_configuration_error());
    assert!(!EclipseError::DivisionByZero.is_configuration_error());
    assert_eq!(EclipseError::AssetNotFound("ELIQ".to_owned()).message(), "asset not found: ELIQ");
    assert_eq!(
        EclipseError::InsufficientBalance {
            account: "alice".to_owned(),
            asset: "ELIQ".to_owned(),
            available: 5,
            needed: 9
        }
        .message(),
        "insufficient balance for alice asset ELIQ: available 5, needed 9"
    );
    assert_eq!(EclipseError::InvalidBasisPoints(10_001).message(), "invalid basis points: 10001");
}
