use crate::text::{push_decimal, push_str};
use vstd::prelude::*;

verus! {

/// Every failure that the settlement engine reports.
#[derive(Debug, PartialEq, Eq)]
pub enum EclipseError {
    AmountOverflow,
    AmountUnderflow,
    DivisionByZero,
    InvalidBasisPoints(u32),
    AssetNotFound(String),
    AssetDisabled(String),
    AccountNotFound(String),
    OperatorNotFound(String),
    OperatorUnavailable(String),
    RouteNotFound(String),
    RouteDisabled(String),
    BatchNotFound(String),
    BidNotFound(String),
    DuplicateId(String),
    InsufficientBalance { account: String, asset: String, available: u128, needed: u128 },
    InsufficientGuarantee { operator: String, available: u128, needed: u128 },
    BidRejected(String),
    BatchClosed(String),
    BatchNotReady(String),
    NoEligibleBids(String),
    SettlementFloor { net: u128, minimum: u128 },
    RouteAssetMismatch,
    InvalidScenario(String),
    Serialization(String),
    Io(String),
}

impl Clone for EclipseError {
    fn clone(&self) -> (r: Self)
        ensures
            r == *self,
    {
        match self {
            EclipseError::AmountOverflow => EclipseError::AmountOverflow,
            EclipseError::AmountUnderflow => EclipseError::AmountUnderflow,
            EclipseError::DivisionByZero => EclipseError::DivisionByZero,
            EclipseError::InvalidBasisPoints(v) => EclipseError::InvalidBasisPoints(*v),
            EclipseError::AssetNotFound(s) => EclipseError::AssetNotFound(s.clone()),
            EclipseError::AssetDisabled(s) => EclipseError::AssetDisabled(s.clone()),
            EclipseError::AccountNotFound(s) => EclipseError::AccountNotFound(s.clone()),
            EclipseError::OperatorNotFound(s) => EclipseError::OperatorNotFound(s.clone()),
            EclipseError::OperatorUnavailable(s) => EclipseError::OperatorUnavailable(s.clone()),
            EclipseError::RouteNotFound(s) => EclipseError::RouteNotFound(s.clone()),
            EclipseError::RouteDisabled(s) => EclipseError::RouteDisabled(s.clone()),
            EclipseError::BatchNotFound(s) => EclipseError::BatchNotFound(s.clone()),
            EclipseError::BidNotFound(s) => EclipseError::BidNotFound(s.clone()),
            EclipseError::DuplicateId(s) => EclipseError::DuplicateId(s.clone()),
            EclipseError::InsufficientBalance { account, asset, available, needed } => EclipseError::InsufficientBalance {
                account: account.clone(),
                asset: asset.clone(),
                available: *available,
                needed: *needed,
            },
            EclipseError::InsufficientGuarantee { operator, available, needed } => EclipseError::InsufficientGuarantee {
                operator: operator.clone(),
                available: *available,
                needed: *needed,
            },
            EclipseError::BidRejected(s) => EclipseError::BidRejected(s.clone()),
            EclipseError::BatchClosed(s) => EclipseError::BatchClosed(s.clone()),
            EclipseError::BatchNotReady(s) => EclipseError::BatchNotReady(s.clone()),
            EclipseError::NoEligibleBids(s) => EclipseError::NoEligibleBids(s.clone()),
            EclipseError::SettlementFloor { net, minimum } => EclipseError::SettlementFloor { net: *net, minimum: *minimum },
            EclipseError::RouteAssetMismatch => EclipseError::RouteAssetMismatch,
            EclipseError::InvalidScenario(s) => EclipseError::InvalidScenario(s.clone()),
            EclipseError::Serialization(s) => EclipseError::Serialization(s.clone()),
            EclipseError::Io(s) => EclipseError::Io(s.clone()),
        }
    }
}

pub type Result<T> = core::result::Result<T, EclipseError>;

/// The stable machine-readable code of an error.
pub open spec fn error_code(e: EclipseError) -> Seq<char> {
    match e {
        EclipseError::AmountOverflow => "AMOUNT_OVERFLOW"@,
        EclipseError::AmountUnderflow => "AMOUNT_UNDERFLOW"@,
        EclipseError::DivisionByZero => "DIVISION_BY_ZERO"@,
        EclipseError::InvalidBasisPoints(_) => "INVALID_BPS"@,
        EclipseError::AssetNotFound(_) => "ASSET_NOT_FOUND"@,
        EclipseError::AssetDisabled(_) => "ASSET_DISABLED"@,
        EclipseError::AccountNotFound(_) => "ACCOUNT_NOT_FOUND"@,
        EclipseError::OperatorNotFound(_) => "OPERATOR_NOT_FOUND"@,
        EclipseError::OperatorUnavailable(_) => "OPERATOR_UNAVAILABLE"@,
        EclipseError::RouteNotFound(_) => "ROUTE_NOT_FOUND"@,
        EclipseError::RouteDisabled(_) => "ROUTE_DISABLED"@,
        EclipseError::BatchNotFound(_) => "BATCH_NOT_FOUND"@,
        EclipseError::BidNotFound(_) => "BID_NOT_FOUND"@,
        EclipseError::DuplicateId(_) => "DUPLICATE_ID"@,
        EclipseError::InsufficientBalance { .. } => "INSUFFICIENT_BALANCE"@,
        EclipseError::InsufficientGuarantee { .. } => "INSUFFICIENT_GUARANTEE"@,
        EclipseError::BidRejected(_) => "BID_REJECTED"@,
        EclipseError::BatchClosed(_) => "BATCH_CLOSED"@,
        EclipseError::BatchNotReady(_) => "BATCH_NOT_READY"@,
        EclipseError::NoEligibleBids(_) => "NO_ELIGIBLE_BIDS"@,
        EclipseError::SettlementFloor { .. } => "SETTLEMENT_FLOOR"@,
        EclipseError::RouteAssetMismatch => "ROUTE_ASSET_MISMATCH"@,
        EclipseError::InvalidScenario(_) => "INVALID_SCENARIO"@,
        EclipseError::Serialization(_) => "SERIALIZATION"@,
        EclipseError::Io(_) => "IO"@,
    }
}

/// The position of an error's variant in the list of variants.
pub open spec fn variant_index(e: EclipseError) -> int {
    match e {
        EclipseError::AmountOverflow => 0,
        EclipseError::AmountUnderflow => 1,
        EclipseError::DivisionByZero => 2,
        EclipseError::InvalidBasisPoints(_) => 3,
        EclipseError::AssetNotFound(_) => 4,
        EclipseError::AssetDisabled(_) => 5,
        EclipseError::AccountNotFound(_) => 6,
        EclipseError::OperatorNotFound(_) => 7,
        EclipseError::OperatorUnavailable(_) => 8,
        EclipseError::RouteNotFound(_) => 9,
        EclipseError::RouteDisabled(_) => 10,
        EclipseError::BatchNotFound(_) => 11,
        EclipseError::BidNotFound(_) => 12,
        EclipseError::DuplicateId(_) => 13,
        EclipseError::InsufficientBalance { .. } => 14,
        EclipseError::InsufficientGuarantee { .. } => 15,
        EclipseError::BidRejected(_) => 16,
        EclipseError::BatchClosed(_) => 17,
        EclipseError::BatchNotReady(_) => 18,
        EclipseError::NoEligibleBids(_) => 19,
        EclipseError::SettlementFloor { .. } => 20,
        EclipseError::RouteAssetMismatch => 21,
        EclipseError::InvalidScenario(_) => 22,
        EclipseError::Serialization(_) => 23,
        EclipseError::Io(_) => 24,
    }
}

/// The length of a code and its characters at positions 1 and 10, which tell the codes apart.
pub open spec fn code_fingerprint(c: Seq<char>) -> (int, char, char) {
    (c.len() as int, c[1], if c.len() > 10 { c[10] } else { ' ' })
}

/// The fingerprint of the code of the variant at position `i`.
pub open spec fn fingerprint_of(i: int) -> (int, char, char) {
        if i == 0 {
            (15, 'M', 'R')
        } else if i == 1 {
            (16, 'M', 'E')
        } else if i == 2 {
            (16, 'I', 'Y')
        } else if i == 3 {
            (11, 'N', 'S')
        } else if i == 4 {
            (15, 'S', 'F')
        } else if i == 5 {
            (14, 'S', 'B')
        } else if i == 6 {
            (17, 'C', 'T')
        } else if i == 7 {
            (18, 'P', 'O')
        } else if i == 8 {
            (20, 'P', 'N')
        } else if i == 9 {
            (15, 'O', 'F')
        } else if i == 10 {
            (14, 'O', 'B')
        } else if i == 11 {
            (15, 'A', 'F')
        } else if i == 12 {
            (13, 'I', 'U')
        } else if i == 13 {
            (12, 'U', 'I')
        } else if i == 14 {
            (20, 'N', 'N')
        } else if i == 15 {
            (22, 'N', 'N')
        } else if i == 16 {
            (12, 'I', 'E')
        } else if i == 17 {
            (12, 'A', 'E')
        } else if i == 18 {
            (15, 'A', 'R')
        } else if i == 19 {
            (16, 'O', 'E')
        } else if i == 20 {
            (16, 'E', '_')
        } else if i == 21 {
            (20, 'O', 'T')
        } else if i == 22 {
            (16, 'N', 'E')
        } else if i == 23 {
            (13, 'E', 'I')
        } else if i == 24 {
            (2, 'O', ' ')
        } else {
            (0, ' ', ' ')
        }
}

proof fn lemma_code_fingerprint(e: EclipseError)
    ensures
        code_fingerprint(error_code(e)) == fingerprint_of(variant_index(e)),
{
    match e {
        EclipseError::AmountOverflow => { reveal_strlit("AMOUNT_OVERFLOW"); },
        EclipseError::AmountUnderflow => { reveal_strlit("AMOUNT_UNDERFLOW"); },
        EclipseError::DivisionByZero => { reveal_strlit("DIVISION_BY_ZERO"); },
        EclipseError::InvalidBasisPoints(_) => { reveal_strlit("INVALID_BPS"); },
        EclipseError::AssetNotFound(_) => { reveal_strlit("ASSET_NOT_FOUND"); },
        EclipseError::AssetDisabled(_) => { reveal_strlit("ASSET_DISABLED"); },
        EclipseError::AccountNotFound(_) => { reveal_strlit("ACCOUNT_NOT_FOUND"); },
        EclipseError::OperatorNotFound(_) => { reveal_strlit("OPERATOR_NOT_FOUND"); },
        EclipseError::OperatorUnavailable(_) => { reveal_strlit("OPERATOR_UNAVAILABLE"); },
        EclipseError::RouteNotFound(_) => { reveal_strlit("ROUTE_NOT_FOUND"); },
        EclipseError::RouteDisabled(_) => { reveal_strlit("ROUTE_DISABLED"); },
        EclipseError::BatchNotFound(_) => { reveal_strlit("BATCH_NOT_FOUND"); },
        EclipseError::BidNotFound(_) => { reveal_strlit("BID_NOT_FOUND"); },
        EclipseError::DuplicateId(_) => { reveal_strlit("DUPLICATE_ID"); },
        EclipseError::InsufficientBalance { .. } => { reveal_strlit("INSUFFICIENT_BALANCE"); },
        EclipseError::InsufficientGuarantee { .. } => { reveal_strlit("INSUFFICIENT_GUARANTEE"); },
        EclipseError::BidRejected(_) => { reveal_strlit("BID_REJECTED"); },
        EclipseError::BatchClosed(_) => { reveal_strlit("BATCH_CLOSED"); },
        EclipseError::BatchNotReady(_) => { reveal_strlit("BATCH_NOT_READY"); },
        EclipseError::NoEligibleBids(_) => { reveal_strlit("NO_ELIGIBLE_BIDS"); },
        EclipseError::SettlementFloor { .. } => { reveal_strlit("SETTLEMENT_FLOOR"); },
        EclipseError::RouteAssetMismatch => { reveal_strlit("ROUTE_ASSET_MISMATCH"); },
        EclipseError::InvalidScenario(_) => { reveal_strlit("INVALID_SCENARIO"); },
        EclipseError::Serialization(_) => { reveal_strlit("SERIALIZATION"); },
        EclipseError::Io(_) => { reveal_strlit("IO"); },
    }
}

/// Every variant has its own code: two errors share a code exactly when they are of the same
/// variant, whatever their fields.
pub proof fn law_codes_distinct(e1: EclipseError, e2: EclipseError)
    ensures
        error_code(e1) == error_code(e2) <==> variant_index(e1) == variant_index(e2),
{
    lemma_code_fingerprint(e1);
    lemma_code_fingerprint(e2);
    let i1 = variant_index(e1);
    let i2 = variant_index(e2);
    assert(0 <= i1 < 25 && 0 <= i2 < 25);
    if i1 == i2 {
        assert(error_code(e1) == error_code(e2));
    }
}

/// The human-readable message of an error.
pub open spec fn error_message(e: EclipseError) -> Seq<char> {
    match e {
        EclipseError::AmountOverflow => "amount overflow"@,
        EclipseError::AmountUnderflow => "amount underflow"@,
        EclipseError::DivisionByZero => "division by zero"@,
        EclipseError::InvalidBasisPoints(v) => "invalid basis points: "@ + crate::text::decimal(v as nat),
        EclipseError::AssetNotFound(s) => "asset not found: "@ + s@,
        EclipseError::AssetDisabled(s) => "asset disabled: "@ + s@,
        EclipseError::AccountNotFound(s) => "account not found: "@ + s@,
        EclipseError::OperatorNotFound(s) => "operator not found: "@ + s@,
        EclipseError::OperatorUnavailable(s) => "operator unavailable: "@ + s@,
        EclipseError::RouteNotFound(s) => "route not found: "@ + s@,
        EclipseError::RouteDisabled(s) => "route disabled: "@ + s@,
        EclipseError::BatchNotFound(s) => "batch not found: "@ + s@,
        EclipseError::BidNotFound(s) => "bid not found: "@ + s@,
        EclipseError::DuplicateId(s) => "duplicate id: "@ + s@,
        EclipseError::InsufficientBalance { account, asset, available, needed } =>
            "insufficient balance for "@ + account@ + " asset "@ + asset@ + ": available "@
                + crate::text::decimal(available as nat) + ", needed "@ + crate::text::decimal(needed as nat),
        EclipseError::InsufficientGuarantee { operator, available, needed } =>
            "insufficient guarantee for "@ + operator@ + ": available "@
                + crate::text::decimal(available as nat) + ", needed "@ + crate::text::decimal(needed as nat),
        EclipseError::BidRejected(s) => "bid rejected: "@ + s@,
        EclipseError::BatchClosed(s) => "batch closed: "@ + s@,
        EclipseError::BatchNotReady(s) => "batch not ready: "@ + s@,
        EclipseError::NoEligibleBids(s) => "no eligible bids for "@ + s@,
        EclipseError::SettlementFloor { net, minimum } =>
            "settlement floor not met: net "@ + crate::text::decimal(net as nat) + ", minimum "@
                + crate::text::decimal(minimum as nat),
        EclipseError::RouteAssetMismatch => "route asset mismatch"@,
        EclipseError::InvalidScenario(s) => "invalid scenario: "@ + s@,
        EclipseError::Serialization(s) => "serialization error: "@ + s@,
        EclipseError::Io(s) => "io error: "@ + s@,
    }
}

impl EclipseError {
    pub fn code(&self) -> (r: &'static str)
        ensures
            r@ == error_code(*self),
    {
        match self {
            EclipseError::AmountOverflow => "AMOUNT_OVERFLOW",
            EclipseError::AmountUnderflow => "AMOUNT_UNDERFLOW",
            EclipseError::DivisionByZero => "DIVISION_BY_ZERO",
            EclipseError::InvalidBasisPoints(_) => "INVALID_BPS",
            EclipseError::AssetNotFound(_) => "ASSET_NOT_FOUND",
            EclipseError::AssetDisabled(_) => "ASSET_DISABLED",
            EclipseError::AccountNotFound(_) => "ACCOUNT_NOT_FOUND",
            EclipseError::OperatorNotFound(_) => "OPERATOR_NOT_FOUND",
            EclipseError::OperatorUnavailable(_) => "OPERATOR_UNAVAILABLE",
            EclipseError::RouteNotFound(_) => "ROUTE_NOT_FOUND",
            EclipseError::RouteDisabled(_) => "ROUTE_DISABLED",
            EclipseError::BatchNotFound(_) => "BATCH_NOT_FOUND",
            EclipseError::BidNotFound(_) => "BID_NOT_FOUND",
            EclipseError::DuplicateId(_) => "DUPLICATE_ID",
            EclipseError::InsufficientBalance { .. } => "INSUFFICIENT_BALANCE",
            EclipseError::InsufficientGuarantee { .. } => "INSUFFICIENT_GUARANTEE",
            EclipseError::BidRejected(_) => "BID_REJECTED",
            EclipseError::BatchClosed(_) => "BATCH_CLOSED",
            EclipseError::BatchNotReady(_) => "BATCH_NOT_READY",
            EclipseError::NoEligibleBids(_) => "NO_ELIGIBLE_BIDS",
            EclipseError::SettlementFloor { .. } => "SETTLEMENT_FLOOR",
            EclipseError::RouteAssetMismatch => "ROUTE_ASSET_MISMATCH",
            EclipseError::InvalidScenario(_) => "INVALID_SCENARIO",
            EclipseError::Serialization(_) => "SERIALIZATION",
            EclipseError::Io(_) => "IO",
        }
    }

    pub fn is_retryable(&self) -> (r: bool)
        ensures
            r <==> (self is InsufficientBalance || self is SettlementFloor || self is NoEligibleBids),
    {
        match self {
            EclipseError::InsufficientBalance { .. } => true,
            EclipseError::SettlementFloor { .. } => true,
            EclipseError::NoEligibleBids(_) => true,
            _ => false,
        }
    }

    pub fn is_configuration_error(&self) -> (r: bool)
        ensures
            r <==> (self is AssetNotFound || self is AccountNotFound || self is OperatorNotFound
                || self is RouteNotFound || self is InvalidScenario),
    {
        match self {
            EclipseError::AssetNotFound(_) => true,
            EclipseError::AccountNotFound(_) => true,
            EclipseError::OperatorNotFound(_) => true,
            EclipseError::RouteNotFound(_) => true,
            EclipseError::InvalidScenario(_) => true,
            _ => false,
        }
    }

    /// The error's human-readable message.
    pub fn message(&self) -> (r: String)
        ensures
            r@ == error_message(*self),
    {
        let mut out = String::new();
        match self {
            EclipseError::AmountOverflow => push_str(&mut out, "amount overflow"),
            EclipseError::AmountUnderflow => push_str(&mut out, "amount underflow"),
            EclipseError::DivisionByZero => push_str(&mut out, "division by zero"),
            EclipseError::InvalidBasisPoints(v) => {
                push_str(&mut out, "invalid basis points: ");
                push_decimal(&mut out, *v as u128);
            },
            EclipseError::AssetNotFound(s) => { push_str(&mut out, "asset not found: "); push_str(&mut out, s.as_str()); },
            EclipseError::AssetDisabled(s) => { push_str(&mut out, "asset disabled: "); push_str(&mut out, s.as_str()); },
            EclipseError::AccountNotFound(s) => { push_str(&mut out, "account not found: "); push_str(&mut out, s.as_str()); },
            EclipseError::OperatorNotFound(s) => { push_str(&mut out, "operator not found: "); push_str(&mut out, s.as_str()); },
            EclipseError::OperatorUnavailable(s) => { push_str(&mut out, "operator unavailable: "); push_str(&mut out, s.as_str()); },
            EclipseError::RouteNotFound(s) => { push_str(&mut out, "route not found: "); push_str(&mut out, s.as_str()); },
            EclipseError::RouteDisabled(s) => { push_str(&mut out, "route disabled: "); push_str(&mut out, s.as_str()); },
            EclipseError::BatchNotFound(s) => { push_str(&mut out, "batch not found: "); push_str(&mut out, s.as_str()); },
            EclipseError::BidNotFound(s) => { push_str(&mut out, "bid not found: "); push_str(&mut out, s.as_str()); },
            EclipseError::DuplicateId(s) => { push_str(&mut out, "duplicate id: "); push_str(&mut out, s.as_str()); },
            EclipseError::InsufficientBalance { account, asset, available, needed } => {
                push_str(&mut out, "insufficient balance for ");
                push_str(&mut out, account.as_str());
                push_str(&mut out, " asset ");
                push_str(&mut out, asset.as_str());
                push_str(&mut out, ": available ");
                push_decimal(&mut out, *available);
                push_str(&mut out, ", needed ");
                push_decimal(&mut out, *needed);
            },
            EclipseError::InsufficientGuarantee { operator, available, needed } => {
                push_str(&mut out, "insufficient guarantee for ");
                push_str(&mut out, operator.as_str());
                push_str(&mut out, ": available ");
                push_decimal(&mut out, *available);
                push_str(&mut out, ", needed ");
                push_decimal(&mut out, *needed);
            },
            EclipseError::BidRejected(s) => { push_str(&mut out, "bid rejected: "); push_str(&mut out, s.as_str()); },
            EclipseError::BatchClosed(s) => { push_str(&mut out, "batch closed: "); push_str(&mut out, s.as_str()); },
            EclipseError::BatchNotReady(s) => { push_str(&mut out, "batch not ready: "); push_str(&mut out, s.as_str()); },
            EclipseError::NoEligibleBids(s) => { push_str(&mut out, "no eligible bids for "); push_str(&mut out, s.as_str()); },
            EclipseError::SettlementFloor { net, minimum } => {
                push_str(&mut out, "settlement floor not met: net ");
                push_decimal(&mut out, *net);
                push_str(&mut out, ", minimum ");
                push_decimal(&mut out, *minimum);
            },
            EclipseError::RouteAssetMismatch => push_str(&mut out, "route asset mismatch"),
            EclipseError::InvalidScenario(s) => { push_str(&mut out, "invalid scenario: "); push_str(&mut out, s.as_str()); },
            EclipseError::Serialization(s) => { push_str(&mut out, "serialization error: "); push_str(&mut out, s.as_str()); },
            EclipseError::Io(s) => { push_str(&mut out, "io error: "); push_str(&mut out, s.as_str()); },
        }
        out
    }
}

} // verus!
