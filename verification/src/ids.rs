use crate::text::{push_str, push_zero_padded, zero_padded};
use vstd::prelude::*;

verus! {

/// Whether `c` is white space in Unicode's sense, as `char::is_whitespace` decides.
pub uninterp spec fn unicode_white_space(c: char) -> bool;

/// Calls `char::is_whitespace`; the result is the named Unicode property of `c`. Its
/// documentation gives the property by reference to Unicode's tables and shows a space, a line
/// feed and a no-break space as white space; those cases are stated, the rest of the property is
/// left to the name.
#[verifier::external_body]
fn char_is_whitespace(c: char) -> (r: bool)
    ensures
        r == unicode_white_space(c),
        c == ' ' || c == '\n' || c == '\u{A0}' ==> r,
{
    c.is_whitespace()
}

/// Every character of `s` is white space (so trimming leaves nothing).
pub open spec fn blank(s: Seq<char>) -> bool {
    forall|i: int| 0 <= i < s.len() ==> unicode_white_space(#[trigger] s[i])
}

/// Whether the string holds only white space.
pub fn is_blank(s: &str) -> (r: bool)
    ensures
        r == blank(s@),
{
    let n = s.unicode_len();
    let mut i: usize = 0;
    while i < n
        invariant
            n == s@.len(),
            i <= n,
            forall|j: int| 0 <= j < i ==> unicode_white_space(#[trigger] s@[j]),
        decreases n - i,
    {
        if !char_is_whitespace(s.get_char(i)) {
            return false;
        }
        i = i + 1;
    }
    true
}

/// Whether `s` begins with `prefix`.
pub fn starts_with(s: &str, prefix: &str) -> (r: bool)
    ensures
        r == (prefix@.len() <= s@.len() && s@.subrange(0, prefix@.len() as int) == prefix@),
{
    let n = s.unicode_len();
    let m = prefix.unicode_len();
    if m > n {
        return false;
    }
    let mut i: usize = 0;
    while i < m
        invariant
            n == s@.len(),
            m == prefix@.len(),
            m <= n,
            i <= m,
            forall|j: int| 0 <= j < i ==> s@[j] == prefix@[j],
        decreases m - i,
    {
        if s.get_char(i) != prefix.get_char(i) {
            proof { assert(s@.subrange(0, m as int)[i as int] != prefix@[i as int]); }
            return false;
        }
        i = i + 1;
    }
    proof { assert(s@.subrange(0, m as int) =~= prefix@); }
    true
}

/// The identifier of a asset.
#[derive(Debug, PartialEq, Eq, PartialOrd, Ord, Hash, Default)]
pub struct AssetId(pub String);

impl View for AssetId {
    type V = Seq<char>;

    open spec fn view(&self) -> Seq<char> {
        self.0@
    }
}

impl Clone for AssetId {
    fn clone(&self) -> (r: Self)
        ensures
            r == *self,
    {
        AssetId(self.0.clone())
    }
}

impl AssetId {
    pub fn new(value: &str) -> (r: AssetId)
        ensures
            r@ == value@,
    {
        AssetId(value.to_owned())
    }

    /// An identifier made of the prefix `asset`, a hyphen and the seed padded to eight digits.
    pub fn generated(seed: u64) -> (r: AssetId)
        ensures
            r@ == "asset-"@ + zero_padded(seed as nat, 8),
    {
        let mut s = String::new();
        push_str(&mut s, "asset-");
        push_zero_padded(&mut s, seed as u128, 8);
        AssetId(s)
    }

    pub fn as_str(&self) -> (r: &str)
        ensures
            r@ == self@,
    {
        self.0.as_str()
    }

    pub fn into_inner(self) -> (r: String)
        ensures
            r@ == self@,
    {
        self.0
    }

    /// Whether the identifier holds nothing but white space.
    pub fn is_empty(&self) -> (r: bool)
        ensures
            r == blank(self@),
    {
        is_blank(self.0.as_str())
    }

    /// The identifier, a colon and `suffix`.
    pub fn tagged(&self, suffix: &str) -> (r: String)
        ensures
            r@ == self@ + ":"@ + suffix@,
    {
        let mut s = self.0.clone();
        push_str(&mut s, ":");
        push_str(&mut s, suffix);
        s
    }

    pub fn starts_with_prefix(&self) -> (r: bool)
        ensures
            r == ("asset"@.len() <= self@.len() && self@.subrange(0, "asset"@.len() as int) == "asset"@),
    {
        starts_with(self.0.as_str(), "asset")
    }
}

/// The identifier of a account.
#[derive(Debug, PartialEq, Eq, PartialOrd, Ord, Hash, Default)]
pub struct AccountId(pub String);

impl View for AccountId {
    type V = Seq<char>;

    open spec fn view(&self) -> Seq<char> {
        self.0@
    }
}

impl Clone for AccountId {
    fn clone(&self) -> (r: Self)
        ensures
            r == *self,
    {
        AccountId(self.0.clone())
    }
}

impl AccountId {
    pub fn new(value: &str) -> (r: AccountId)
        ensures
            r@ == value@,
    {
        AccountId(value.to_owned())
    }

    /// An identifier made of the prefix `acct`, a hyphen and the seed padded to eight digits.
    pub fn generated(seed: u64) -> (r: AccountId)
        ensures
            r@ == "acct-"@ + zero_padded(seed as nat, 8),
    {
        let mut s = String::new();
        push_str(&mut s, "acct-");
        push_zero_padded(&mut s, seed as u128, 8);
        AccountId(s)
    }

    pub fn as_str(&self) -> (r: &str)
        ensures
            r@ == self@,
    {
        self.0.as_str()
    }

    pub fn into_inner(self) -> (r: String)
        ensures
            r@ == self@,
    {
        self.0
    }

    /// Whether the identifier holds nothing but white space.
    pub fn is_empty(&self) -> (r: bool)
        ensures
            r == blank(self@),
    {
        is_blank(self.0.as_str())
    }

    /// The identifier, a colon and `suffix`.
    pub fn tagged(&self, suffix: &str) -> (r: String)
        ensures
            r@ == self@ + ":"@ + suffix@,
    {
        let mut s = self.0.clone();
        push_str(&mut s, ":");
        push_str(&mut s, suffix);
        s
    }

    pub fn starts_with_prefix(&self) -> (r: bool)
        ensures
            r == ("acct"@.len() <= self@.len() && self@.subrange(0, "acct"@.len() as int) == "acct"@),
    {
        starts_with(self.0.as_str(), "acct")
    }
}

/// The identifier of a operator.
#[derive(Debug, PartialEq, Eq, PartialOrd, Ord, Hash, Default)]
pub struct OperatorId(pub String);

impl View for OperatorId {
    type V = Seq<char>;

    open spec fn view(&self) -> Seq<char> {
        self.0@
    }
}

impl Clone for OperatorId {
    fn clone(&self) -> (r: Self)
        ensures
            r == *self,
    {
        OperatorId(self.0.clone())
    }
}

impl OperatorId {
    pub fn new(value: &str) -> (r: OperatorId)
        ensures
            r@ == value@,
    {
        OperatorId(value.to_owned())
    }

    /// An identifier made of the prefix `op`, a hyphen and the seed padded to eight digits.
    pub fn generated(seed: u64) -> (r: OperatorId)
        ensures
            r@ == "op-"@ + zero_padded(seed as nat, 8),
    {
        let mut s = String::new();
        push_str(&mut s, "op-");
        push_zero_padded(&mut s, seed as u128, 8);
        OperatorId(s)
    }

    pub fn as_str(&self) -> (r: &str)
        ensures
            r@ == self@,
    {
        self.0.as_str()
    }

    pub fn into_inner(self) -> (r: String)
        ensures
            r@ == self@,
    {
        self.0
    }

    /// Whether the identifier holds nothing but white space.
    pub fn is_empty(&self) -> (r: bool)
        ensures
            r == blank(self@),
    {
        is_blank(self.0.as_str())
    }

    /// The identifier, a colon and `suffix`.
    pub fn tagged(&self, suffix: &str) -> (r: String)
        ensures
            r@ == self@ + ":"@ + suffix@,
    {
        let mut s = self.0.clone();
        push_str(&mut s, ":");
        push_str(&mut s, suffix);
        s
    }

    pub fn starts_with_prefix(&self) -> (r: bool)
        ensures
            r == ("op"@.len() <= self@.len() && self@.subrange(0, "op"@.len() as int) == "op"@),
    {
        starts_with(self.0.as_str(), "op")
    }
}

/// The identifier of a route.
#[derive(Debug, PartialEq, Eq, PartialOrd, Ord, Hash, Default)]
pub struct RouteId(pub String);

impl View for RouteId {
    type V = Seq<char>;

    open spec fn view(&self) -> Seq<char> {
        self.0@
    }
}

impl Clone for RouteId {
    fn clone(&self) -> (r: Self)
        ensures
            r == *self,
    {
        RouteId(self.0.clone())
    }
}

impl RouteId {
    pub fn new(value: &str) -> (r: RouteId)
        ensures
            r@ == value@,
    {
        RouteId(value.to_owned())
    }

    /// An identifier made of the prefix `route`, a hyphen and the seed padded to eight digits.
    pub fn generated(seed: u64) -> (r: RouteId)
        ensures
            r@ == "route-"@ + zero_padded(seed as nat, 8),
    {
        let mut s = String::new();
        push_str(&mut s, "route-");
        push_zero_padded(&mut s, seed as u128, 8);
        RouteId(s)
    }

    pub fn as_str(&self) -> (r: &str)
        ensures
            r@ == self@,
    {
        self.0.as_str()
    }

    pub fn into_inner(self) -> (r: String)
        ensures
            r@ == self@,
    {
        self.0
    }

    /// Whether the identifier holds nothing but white space.
    pub fn is_empty(&self) -> (r: bool)
        ensures
            r == blank(self@),
    {
        is_blank(self.0.as_str())
    }

    /// The identifier, a colon and `suffix`.
    pub fn tagged(&self, suffix: &str) -> (r: String)
        ensures
            r@ == self@ + ":"@ + suffix@,
    {
        let mut s = self.0.clone();
        push_str(&mut s, ":");
        push_str(&mut s, suffix);
        s
    }

    pub fn starts_with_prefix(&self) -> (r: bool)
        ensures
            r == ("route"@.len() <= self@.len() && self@.subrange(0, "route"@.len() as int) == "route"@),
    {
        starts_with(self.0.as_str(), "route")
    }
}

/// The identifier of a batch.
#[derive(Debug, PartialEq, Eq, PartialOrd, Ord, Hash, Default)]
pub struct BatchId(pub String);

impl View for BatchId {
    type V = Seq<char>;

    open spec fn view(&self) -> Seq<char> {
        self.0@
    }
}

impl Clone for BatchId {
    fn clone(&self) -> (r: Self)
        ensures
            r == *self,
    {
        BatchId(self.0.clone())
    }
}

impl BatchId {
    pub fn new(value: &str) -> (r: BatchId)
        ensures
            r@ == value@,
    {
        BatchId(value.to_owned())
    }

    /// An identifier made of the prefix `batch`, a hyphen and the seed padded to eight digits.
    pub fn generated(seed: u64) -> (r: BatchId)
        ensures
            r@ == "batch-"@ + zero_padded(seed as nat, 8),
    {
        let mut s = String::new();
        push_str(&mut s, "batch-");
        push_zero_padded(&mut s, seed as u128, 8);
        BatchId(s)
    }

    pub fn as_str(&self) -> (r: &str)
        ensures
            r@ == self@,
    {
        self.0.as_str()
    }

    pub fn into_inner(self) -> (r: String)
        ensures
            r@ == self@,
    {
        self.0
    }

    /// Whether the identifier holds nothing but white space.
    pub fn is_empty(&self) -> (r: bool)
        ensures
            r == blank(self@),
    {
        is_blank(self.0.as_str())
    }

    /// The identifier, a colon and `suffix`.
    pub fn tagged(&self, suffix: &str) -> (r: String)
        ensures
            r@ == self@ + ":"@ + suffix@,
    {
        let mut s = self.0.clone();
        push_str(&mut s, ":");
        push_str(&mut s, suffix);
        s
    }

    pub fn starts_with_prefix(&self) -> (r: bool)
        ensures
            r == ("batch"@.len() <= self@.len() && self@.subrange(0, "batch"@.len() as int) == "batch"@),
    {
        starts_with(self.0.as_str(), "batch")
    }
}

/// The identifier of a bid.
#[derive(Debug, PartialEq, Eq, PartialOrd, Ord, Hash, Default)]
pub struct BidId(pub String);

impl View for BidId {
    type V = Seq<char>;

    open spec fn view(&self) -> Seq<char> {
        self.0@
    }
}

impl Clone for BidId {
    fn clone(&self) -> (r: Self)
        ensures
            r == *self,
    {
        BidId(self.0.clone())
    }
}

impl BidId {
    pub fn new(value: &str) -> (r: BidId)
        ensures
            r@ == value@,
    {
        BidId(value.to_owned())
    }

    /// An identifier made of the prefix `bid`, a hyphen and the seed padded to eight digits.
    pub fn generated(seed: u64) -> (r: BidId)
        ensures
            r@ == "bid-"@ + zero_padded(seed as nat, 8),
    {
        let mut s = String::new();
        push_str(&mut s, "bid-");
        push_zero_padded(&mut s, seed as u128, 8);
        BidId(s)
    }

    pub fn as_str(&self) -> (r: &str)
        ensures
            r@ == self@,
    {
        self.0.as_str()
    }

    pub fn into_inner(self) -> (r: String)
        ensures
            r@ == self@,
    {
        self.0
    }

    /// Whether the identifier holds nothing but white space.
    pub fn is_empty(&self) -> (r: bool)
        ensures
            r == blank(self@),
    {
        is_blank(self.0.as_str())
    }

    /// The identifier, a colon and `suffix`.
    pub fn tagged(&self, suffix: &str) -> (r: String)
        ensures
            r@ == self@ + ":"@ + suffix@,
    {
        let mut s = self.0.clone();
        push_str(&mut s, ":");
        push_str(&mut s, suffix);
        s
    }

    pub fn starts_with_prefix(&self) -> (r: bool)
        ensures
            r == ("bid"@.len() <= self@.len() && self@.subrange(0, "bid"@.len() as int) == "bid"@),
    {
        starts_with(self.0.as_str(), "bid")
    }
}

/// A pair of identifiers.
#[derive(Debug, PartialEq, Eq)]
pub struct IdPair<L, R> {
    pub left: L,
    pub right: R,
}

impl<L: Clone, R: Clone> Clone for IdPair<L, R> {
    /// A pair of the two sides' own clones.
    fn clone(&self) -> (r: Self)
        ensures
            cloned::<L>(self.left, r.left),
            cloned::<R>(self.right, r.right),
    {
        IdPair { left: self.left.clone(), right: self.right.clone() }
    }
}

impl<L, R> IdPair<L, R> {
    pub fn new(left: L, right: R) -> (r: IdPair<L, R>)
        ensures
            r.left == left && r.right == right,
    {
        IdPair { left, right }
    }

    pub fn map_left<N>(self, next: N) -> (r: IdPair<N, R>)
        ensures
            r.left == next && r.right == self.right,
    {
        IdPair { left: next, right: self.right }
    }

    pub fn map_right<N>(self, next: N) -> (r: IdPair<L, N>)
        ensures
            r.left == self.left && r.right == next,
    {
        IdPair { left: self.left, right: next }
    }
}

/// A conversion from one asset to another.
#[derive(Clone, Debug, PartialEq, Eq)]
pub struct AssetPair {
    pub source: AssetId,
    pub target: AssetId,
}

impl AssetPair {
    pub fn new(source: AssetId, target: AssetId) -> (r: AssetPair)
        ensures
            r.source == source && r.target == target,
    {
        AssetPair { source, target }
    }

    pub fn reversed(&self) -> (r: AssetPair)
        ensures
            r.source == self.target && r.target == self.source,
    {
        AssetPair { source: self.target.clone(), target: self.source.clone() }
    }

    pub fn contains(&self, asset: &AssetId) -> (r: bool)
        ensures
            r == (self.source@ == asset@ || self.target@ == asset@),
    {
        self.source.0 == asset.0 || self.target.0 == asset.0
    }

    /// `source>target`.
    pub fn key(&self) -> (r: String)
        ensures
            r@ == self.source@ + ">"@ + self.target@,
    {
        let mut s = self.source.0.clone();
        push_str(&mut s, ">");
        push_str(&mut s, self.target.0.as_str());
        s
    }
}

/// A route together with the assets it converts.
#[derive(Clone, Debug, PartialEq, Eq)]
pub struct RouteKey {
    pub route_id: RouteId,
    pub source: AssetId,
    pub target: AssetId,
}

impl RouteKey {
    pub fn new(route_id: RouteId, source: AssetId, target: AssetId) -> (r: RouteKey)
        ensures
            r.route_id == route_id && r.source == source && r.target == target,
    {
        RouteKey { route_id, source, target }
    }

    pub fn matches_pair(&self, pair: &AssetPair) -> (r: bool)
        ensures
            r == (self.source@ == pair.source@ && self.target@ == pair.target@),
    {
        self.source.0 == pair.source.0 && self.target.0 == pair.target.0
    }

    /// `route:source>target`.
    pub fn label(&self) -> (r: String)
        ensures
            r@ == self.route_id@ + ":"@ + self.source@ + ">"@ + self.target@,
    {
        let mut s = self.route_id.0.clone();
        push_str(&mut s, ":");
        push_str(&mut s, self.source.0.as_str());
        push_str(&mut s, ">");
        push_str(&mut s, self.target.0.as_str());
        s
    }
}

/// The identity of one settlement: batch, bid and route.
#[derive(Debug, PartialEq, Eq)]
pub struct SettlementKey {
    pub batch_id: BatchId,
    pub bid_id: BidId,
    pub route_id: RouteId,
}

impl Clone for SettlementKey {
    fn clone(&self) -> (r: Self)
        ensures
            r == *self,
    {
        SettlementKey { batch_id: self.batch_id.clone(), bid_id: self.bid_id.clone(), route_id: self.route_id.clone() }
    }
}

impl SettlementKey {
    pub fn new(batch_id: BatchId, bid_id: BidId, route_id: RouteId) -> (r: SettlementKey)
        ensures
            r.batch_id == batch_id && r.bid_id == bid_id && r.route_id == route_id,
    {
        SettlementKey { batch_id, bid_id, route_id }
    }

    /// `batch/bid/route`.
    pub fn label(&self) -> (r: String)
        ensures
            r@ == self.batch_id@ + "/"@ + self.bid_id@ + "/"@ + self.route_id@,
    {
        let mut s = self.batch_id.0.clone();
        push_str(&mut s, "/");
        push_str(&mut s, self.bid_id.0.as_str());
        push_str(&mut s, "/");
        push_str(&mut s, self.route_id.0.as_str());
        s
    }
}

} // verus!
