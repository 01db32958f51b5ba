use crate::amount::{Amount, BasisPoints};
use crate::error::{EclipseError, Result};
use crate::ids::{AssetId, OperatorId, RouteId};
use crate::store::{lemma_store_map_index, Keyed, KeyedStore};
use crate::text::push_str;
use vstd::prelude::*;

verus! {

/// The verdict of a policy: accept, accept with a warning, or reject, with the reason.
#[derive(Debug, PartialEq, Eq)]
pub enum PolicyDecision {
    Accept,
    Warn(String),
    Reject(String),
}

impl Clone for PolicyDecision {
    fn clone(&self) -> (r: Self)
        ensures
            r == *self,
    {
        match self {
            PolicyDecision::Accept => PolicyDecision::Accept,
            PolicyDecision::Warn(s) => PolicyDecision::Warn(s.clone()),
            PolicyDecision::Reject(s) => PolicyDecision::Reject(s.clone()),
        }
    }
}

/// The severity of a decision (accept 0, warn 1, reject 2) and its reason.
pub open spec fn decision_model(d: PolicyDecision) -> (int, Seq<char>) {
    match d {
        PolicyDecision::Accept => (0, Seq::empty()),
        PolicyDecision::Warn(s) => (1, s@),
        PolicyDecision::Reject(s) => (2, s@),
    }
}

/// Two decisions combined: the more severe one wins, and the reasons of two equally severe ones
/// are joined by `"; "`.
pub open spec fn merge_model(a: (int, Seq<char>), b: (int, Seq<char>)) -> (int, Seq<char>) {
    if a.0 == b.0 {
        if a.0 == 0 {
            (0, Seq::empty())
        } else {
            (a.0, a.1 + "; "@ + b.1)
        }
    } else if a.0 > b.0 {
        a
    } else {
        b
    }
}

/// A model that a decision can have.
pub open spec fn model_wf(m: (int, Seq<char>)) -> bool {
    0 <= m.0 <= 2 && (m.0 == 0 ==> m.1 == Seq::<char>::empty())
}

impl PolicyDecision {
    pub fn is_accept(&self) -> (r: bool)
        ensures
            r == (decision_model(*self).0 < 2),
    {
        match self {
            PolicyDecision::Accept | PolicyDecision::Warn(_) => true,
            PolicyDecision::Reject(_) => false,
        }
    }

    pub fn reason(&self) -> (r: Option<&str>)
        ensures
            self is Accept ==> r is None,
            !(self is Accept) ==> r is Some && r->Some_0@ == decision_model(*self).1,
    {
        match self {
            PolicyDecision::Accept => None,
            PolicyDecision::Warn(reason) => Some(reason.as_str()),
            PolicyDecision::Reject(reason) => Some(reason.as_str()),
        }
    }

    pub fn merge(self, other: PolicyDecision) -> (r: PolicyDecision)
        ensures
            decision_model(r) == merge_model(decision_model(self), decision_model(other)),
    {
        match (self, other) {
            (PolicyDecision::Reject(left), PolicyDecision::Reject(right)) => {
                let mut s = left;
                push_str(&mut s, "; ");
                push_str(&mut s, right.as_str());
                PolicyDecision::Reject(s)
            },
            (PolicyDecision::Reject(reason), _) => PolicyDecision::Reject(reason),
            (_, PolicyDecision::Reject(reason)) => PolicyDecision::Reject(reason),
            (PolicyDecision::Warn(left), PolicyDecision::Warn(right)) => {
                let mut s = left;
                push_str(&mut s, "; ");
                push_str(&mut s, right.as_str());
                PolicyDecision::Warn(s)
            },
            (PolicyDecision::Warn(reason), _) => PolicyDecision::Warn(reason),
            (_, PolicyDecision::Warn(reason)) => PolicyDecision::Warn(reason),
            (PolicyDecision::Accept, PolicyDecision::Accept) => PolicyDecision::Accept,
        }
    }
}

/// Accepting is neutral when merging, on either side.
pub proof fn law_merge_accept_neutral(m: (int, Seq<char>))
    requires
        model_wf(m),
    ensures
        merge_model((0, Seq::empty()), m) == m,
        merge_model(m, (0, Seq::empty())) == m,
{
}

/// Merging decisions is associative, so a trace folds to the same verdict however it is grouped.
pub proof fn law_merge_associative(a: (int, Seq<char>), b: (int, Seq<char>), c: (int, Seq<char>))
    requires
        model_wf(a),
        model_wf(b),
        model_wf(c),
    ensures
        merge_model(merge_model(a, b), c) == merge_model(a, merge_model(b, c)),
{
    if a.0 == b.0 && b.0 == c.0 && a.0 != 0 {
        assert(a.1 + "; "@ + b.1 + "; "@ + c.1 =~= a.1 + "; "@ + (b.1 + "; "@ + c.1));
    }
}

/// A merge accepts exactly when both decisions accept.
pub proof fn law_merge_accepts_iff_both(a: (int, Seq<char>), b: (int, Seq<char>))
    requires
        model_wf(a),
        model_wf(b),
    ensures
        (merge_model(a, b).0 < 2) == (a.0 < 2 && b.0 < 2),
        model_wf(merge_model(a, b)),
{
}

pub const POLICY_CEILING: u128 = 42535295865117307932921825928971026431u128;

/// Limits on one route.
#[derive(Debug, PartialEq, Eq)]
pub struct RoutePolicy {
    pub route: RouteId,
    pub max_notional: Amount,
    pub min_guarantee_bps: BasisPoints,
    pub max_fee_bps: BasisPoints,
    pub soft_fee_bps: BasisPoints,
    pub enabled: bool,
}

impl Clone for RoutePolicy {
    fn clone(&self) -> (r: Self)
        ensures
            r == *self,
    {
        RoutePolicy { route: self.route.clone(), ..*self }
    }
}

impl Keyed for RoutePolicy {
    open spec fn key(&self) -> Seq<char> {
        self.route@
    }

    fn key_str(&self) -> (r: &str) {
        self.route.as_str()
    }
}

/// A decision whose reason is the given text.
pub open spec fn decides(d: PolicyDecision, kind: int, reason: Seq<char>) -> bool {
    decision_model(d) == (kind, reason)
}

/// The verdict of a route policy.
pub open spec fn route_verdict(p: RoutePolicy, notional: Amount, guarantee_bps: BasisPoints, fee_bps: BasisPoints)
    -> (int, Seq<char>) {
    if !p.enabled {
        (2, "route policy disabled"@)
    } else if notional.0 > p.max_notional.0 {
        (2, "route notional limit"@)
    } else if guarantee_bps.0 < p.min_guarantee_bps.0 {
        (2, "route guarantee floor"@)
    } else if fee_bps.0 > p.max_fee_bps.0 {
        (2, "route fee ceiling"@)
    } else if fee_bps.0 > p.soft_fee_bps.0 {
        (1, "route fee above soft target"@)
    } else {
        (0, Seq::empty())
    }
}

/// A reject with the given reason.
fn reject(reason: &str) -> (r: PolicyDecision)
    ensures
        decision_model(r) == (2int, reason@),
{
    PolicyDecision::Reject(reason.to_owned())
}

/// A warning with the given reason.
fn warn(reason: &str) -> (r: PolicyDecision)
    ensures
        decision_model(r) == (1int, reason@),
{
    PolicyDecision::Warn(reason.to_owned())
}

impl RoutePolicy {
    /// The permissive default for a route.
    pub fn new(route: RouteId) -> (r: RoutePolicy)
        ensures
            r == (RoutePolicy {
                route,
                max_notional: Amount(POLICY_CEILING),
                min_guarantee_bps: BasisPoints(500),
                max_fee_bps: BasisPoints(1_000),
                soft_fee_bps: BasisPoints(300),
                enabled: true,
            }),
    {
        RoutePolicy {
            route,
            max_notional: Amount(POLICY_CEILING),
            min_guarantee_bps: BasisPoints(500),
            max_fee_bps: BasisPoints(1_000),
            soft_fee_bps: BasisPoints(300),
            enabled: true,
        }
    }

    pub fn evaluate(&self, notional: Amount, guarantee_bps: BasisPoints, fee_bps: BasisPoints) -> (r: PolicyDecision)
        ensures
            decision_model(r) == route_verdict(*self, notional, guarantee_bps, fee_bps),
    {
        if !self.enabled {
            return reject("route policy disabled");
        }
        if notional.0 > self.max_notional.0 {
            return reject("route notional limit");
        }
        if guarantee_bps.raw() < self.min_guarantee_bps.raw() {
            return reject("route guarantee floor");
        }
        if fee_bps.raw() > self.max_fee_bps.raw() {
            return reject("route fee ceiling");
        }
        if fee_bps.raw() > self.soft_fee_bps.raw() {
            return warn("route fee above soft target");
        }
        PolicyDecision::Accept
    }
}

/// Limits on drawing one asset from the vault.
#[derive(Debug, PartialEq, Eq)]
pub struct AssetPolicy {
    pub asset: AssetId,
    pub max_vault_draw: Amount,
    pub min_vault_reserve: Amount,
    pub settlement_fee_bps: BasisPoints,
    pub enabled: bool,
}

impl Clone for AssetPolicy {
    fn clone(&self) -> (r: Self)
        ensures
            r == *self,
    {
        AssetPolicy { asset: self.asset.clone(), ..*self }
    }
}

impl Keyed for AssetPolicy {
    open spec fn key(&self) -> Seq<char> {
        self.asset@
    }

    fn key_str(&self) -> (r: &str) {
        self.asset.as_str()
    }
}

/// The verdict of an asset policy on a draw.
pub open spec fn draw_verdict(p: AssetPolicy, vault_available: Amount, draw: Amount) -> (int, Seq<char>) {
    if !p.enabled {
        (2, "asset policy disabled"@)
    } else if draw.0 > p.max_vault_draw.0 {
        (2, "asset draw ceiling"@)
    } else if vault_available.0 < draw.0 {
        (2, "asset vault liquidity"@)
    } else if vault_available.0 - draw.0 < p.min_vault_reserve.0 {
        (1, "asset reserve below target"@)
    } else {
        (0, Seq::empty())
    }
}

impl AssetPolicy {
    pub fn new(asset: AssetId) -> (r: AssetPolicy)
        ensures
            r == (AssetPolicy {
                asset,
                max_vault_draw: Amount(POLICY_CEILING),
                min_vault_reserve: Amount(0),
                settlement_fee_bps: BasisPoints(0),
                enabled: true,
            }),
    {
        AssetPolicy {
            asset,
            max_vault_draw: Amount(POLICY_CEILING),
            min_vault_reserve: Amount(0),
            settlement_fee_bps: BasisPoints(0),
            enabled: true,
        }
    }

    pub fn evaluate_draw(&self, vault_available: Amount, draw: Amount) -> (r: PolicyDecision)
        ensures
            decision_model(r) == draw_verdict(*self, vault_available, draw),
    {
        if !self.enabled {
            return reject("asset policy disabled");
        }
        if draw.0 > self.max_vault_draw.0 {
            return reject("asset draw ceiling");
        }
        if vault_available.0 < draw.0 {
            return reject("asset vault liquidity");
        }
        let remaining = vault_available.saturating_sub(draw);
        if remaining.0 < self.min_vault_reserve.0 {
            return warn("asset reserve below target");
        }
        PolicyDecision::Accept
    }
}

/// Limits on one operator.
#[derive(Debug, PartialEq, Eq)]
pub struct OperatorPolicy {
    pub operator: OperatorId,
    pub max_active_routes: usize,
    pub max_external_commitment: Amount,
    pub min_reliability_bps: BasisPoints,
    pub preferred: bool,
}

impl Clone for OperatorPolicy {
    fn clone(&self) -> (r: Self)
        ensures
            r == *self,
    {
        OperatorPolicy { operator: self.operator.clone(), ..*self }
    }
}

impl Keyed for OperatorPolicy {
    open spec fn key(&self) -> Seq<char> {
        self.operator@
    }

    fn key_str(&self) -> (r: &str) {
        self.operator.as_str()
    }
}

/// The verdict of an operator policy.
pub open spec fn operator_verdict(p: OperatorPolicy, active_routes: usize, external_commitment: Amount,
    reliability_bps: BasisPoints) -> (int, Seq<char>) {
    if active_routes > p.max_active_routes {
        (2, "operator route concentration"@)
    } else if external_commitment.0 > p.max_external_commitment.0 {
        (2, "operator external commitment"@)
    } else if reliability_bps.0 < p.min_reliability_bps.0 {
        (2, "operator reliability floor"@)
    } else if p.preferred {
        (1, "preferred operator path"@)
    } else {
        (0, Seq::empty())
    }
}

impl OperatorPolicy {
    pub fn new(operator: OperatorId) -> (r: OperatorPolicy)
        ensures
            r == (OperatorPolicy {
                operator,
                max_active_routes: 16,
                max_external_commitment: Amount(POLICY_CEILING),
                min_reliability_bps: BasisPoints(7_500),
                preferred: false,
            }),
    {
        OperatorPolicy {
            operator,
            max_active_routes: 16,
            max_external_commitment: Amount(POLICY_CEILING),
            min_reliability_bps: BasisPoints(7_500),
            preferred: false,
        }
    }

    pub fn evaluate(&self, active_routes: usize, external_commitment: Amount, reliability_bps: BasisPoints)
        -> (r: PolicyDecision)
        ensures
            decision_model(r) == operator_verdict(*self, active_routes, external_commitment, reliability_bps),
    {
        if active_routes > self.max_active_routes {
            return reject("operator route concentration");
        }
        if external_commitment.0 > self.max_external_commitment.0 {
            return reject("operator external commitment");
        }
        if reliability_bps.raw() < self.min_reliability_bps.raw() {
            return reject("operator reliability floor");
        }
        if self.preferred {
            return warn("preferred operator path");
        }
        PolicyDecision::Accept
    }
}

/// The policies set for routes, assets and operators; where none is set the default applies.
#[derive(Clone, Debug)]
pub struct PolicyBook {
    pub route_policies: KeyedStore<RoutePolicy>,
    pub asset_policies: KeyedStore<AssetPolicy>,
    pub operator_policies: KeyedStore<OperatorPolicy>,
}

impl Default for PolicyBook {
    fn default() -> (r: PolicyBook)
        ensures
            r.wf(),
            r.route_policies@ == Seq::<RoutePolicy>::empty(),
            r.asset_policies@ == Seq::<AssetPolicy>::empty(),
            r.operator_policies@ == Seq::<OperatorPolicy>::empty(),
    {
        PolicyBook::new()
    }
}

impl PolicyBook {
    pub open spec fn wf(&self) -> bool {
        self.route_policies.wf() && self.asset_policies.wf() && self.operator_policies.wf()
    }

    /// The policy in force for a route.
    pub open spec fn route_policy_spec(&self, route: RouteId) -> RoutePolicy {
        if self.route_policies.map().dom().contains(route@) {
            self.route_policies.map()[route@]
        } else {
            RoutePolicy {
                route,
                max_notional: Amount(POLICY_CEILING),
                min_guarantee_bps: BasisPoints(500),
                max_fee_bps: BasisPoints(1_000),
                soft_fee_bps: BasisPoints(300),
                enabled: true,
            }
        }
    }

    /// The policy in force for an asset.
    pub open spec fn asset_policy_spec(&self, asset: AssetId) -> AssetPolicy {
        if self.asset_policies.map().dom().contains(asset@) {
            self.asset_policies.map()[asset@]
        } else {
            AssetPolicy {
                asset,
                max_vault_draw: Amount(POLICY_CEILING),
                min_vault_reserve: Amount(0),
                settlement_fee_bps: BasisPoints(0),
                enabled: true,
            }
        }
    }

    /// The policy in force for an operator.
    pub open spec fn operator_policy_spec(&self, operator: OperatorId) -> OperatorPolicy {
        if self.operator_policies.map().dom().contains(operator@) {
            self.operator_policies.map()[operator@]
        } else {
            OperatorPolicy {
                operator,
                max_active_routes: 16,
                max_external_commitment: Amount(POLICY_CEILING),
                min_reliability_bps: BasisPoints(7_500),
                preferred: false,
            }
        }
    }

    pub fn new() -> (r: PolicyBook)
        ensures
            r.wf(),
            r.route_policies@ == Seq::<RoutePolicy>::empty(),
            r.asset_policies@ == Seq::<AssetPolicy>::empty(),
            r.operator_policies@ == Seq::<OperatorPolicy>::empty(),
    {
        PolicyBook { route_policies: KeyedStore::new(), asset_policies: KeyedStore::new(), operator_policies: KeyedStore::new() }
    }

    pub fn set_route_policy(&mut self, policy: RoutePolicy)
        requires
            old(self).wf(),
        ensures
            final(self).wf(),
            final(self).route_policies.map() == old(self).route_policies.map().insert(policy.route@, policy),
            final(self).asset_policies == old(self).asset_policies,
            final(self).operator_policies == old(self).operator_policies,
    {
        self.route_policies.upsert(policy);
    }

    pub fn set_asset_policy(&mut self, policy: AssetPolicy)
        requires
            old(self).wf(),
        ensures
            final(self).wf(),
            final(self).asset_policies.map() == old(self).asset_policies.map().insert(policy.asset@, policy),
            final(self).route_policies == old(self).route_policies,
            final(self).operator_policies == old(self).operator_policies,
    {
        self.asset_policies.upsert(policy);
    }

    pub fn set_operator_policy(&mut self, policy: OperatorPolicy)
        requires
            old(self).wf(),
        ensures
            final(self).wf(),
            final(self).operator_policies.map() == old(self).operator_policies.map().insert(policy.operator@, policy),
            final(self).route_policies == old(self).route_policies,
            final(self).asset_policies == old(self).asset_policies,
    {
        self.operator_policies.upsert(policy);
    }

    pub fn route_policy(&self, route: &RouteId) -> (r: RoutePolicy)
        requires
            self.wf(),
        ensures
            r == self.route_policy_spec(*route),
    {
        match self.route_policies.find(route.as_str()) {
            Some(i) => {
                proof { lemma_store_map_index(self.route_policies@, i as int); }
                self.route_policies.at(i).clone()
            },
            None => RoutePolicy::new(route.clone()),
        }
    }

    pub fn asset_policy(&self, asset: &AssetId) -> (r: AssetPolicy)
        requires
            self.wf(),
        ensures
            r == self.asset_policy_spec(*asset),
    {
        match self.asset_policies.find(asset.as_str()) {
            Some(i) => {
                proof { lemma_store_map_index(self.asset_policies@, i as int); }
                self.asset_policies.at(i).clone()
            },
            None => AssetPolicy::new(asset.clone()),
        }
    }

    pub fn operator_policy(&self, operator: &OperatorId) -> (r: OperatorPolicy)
        requires
            self.wf(),
        ensures
            r == self.operator_policy_spec(*operator),
    {
        match self.operator_policies.find(operator.as_str()) {
            Some(i) => {
                proof { lemma_store_map_index(self.operator_policies@, i as int); }
                self.operator_policies.at(i).clone()
            },
            None => OperatorPolicy::new(operator.clone()),
        }
    }

    /// Disables the policy in force for a route, setting it for the route if it was the default.
    pub fn disable_route(&mut self, route: &RouteId)
        requires
            old(self).wf(),
        ensures
            final(self).wf(),
            final(self).route_policies.map() == old(self).route_policies.map().insert(route@,
                RoutePolicy { enabled: false, ..old(self).route_policy_spec(*route) }),
            final(self).asset_policies == old(self).asset_policies,
            final(self).operator_policies == old(self).operator_policies,
    {
        let mut policy = self.route_policy(route);
        proof { if self.route_policies.map().dom().contains(route@) { self.route_policies.lemma_map_key(route@); } }
        policy.enabled = false;
        self.set_route_policy(policy);
    }

    /// Disables the policy in force for an asset, setting it for the asset if it was the default.
    pub fn disable_asset(&mut self, asset: &AssetId)
        requires
            old(self).wf(),
        ensures
            final(self).wf(),
            final(self).asset_policies.map() == old(self).asset_policies.map().insert(asset@,
                AssetPolicy { enabled: false, ..old(self).asset_policy_spec(*asset) }),
            final(self).route_policies == old(self).route_policies,
            final(self).operator_policies == old(self).operator_policies,
    {
        let mut policy = self.asset_policy(asset);
        proof { if self.asset_policies.map().dom().contains(asset@) { self.asset_policies.lemma_map_key(asset@); } }
        policy.enabled = false;
        self.set_asset_policy(policy);
    }

    pub fn route_count(&self) -> (r: usize)
        ensures
            r == self.route_policies@.len(),
    {
        self.route_policies.len()
    }

    pub fn asset_count(&self) -> (r: usize)
        ensures
            r == self.asset_policies@.len(),
    {
        self.asset_policies.len()
    }

    pub fn operator_count(&self) -> (r: usize)
        ensures
            r == self.operator_policies@.len(),
    {
        self.operator_policies.len()
    }
}

/// The decisions taken in turn about one action.
#[derive(Clone, Debug, PartialEq, Eq)]
pub struct PolicyTrace {
    pub decisions: Vec<PolicyDecision>,
}

/// The decisions merged from the left, starting from acceptance.
pub open spec fn fold_decisions(s: Seq<PolicyDecision>) -> (int, Seq<char>)
    decreases s.len(),
{
    if s.len() == 0 {
        (0, Seq::empty())
    } else {
        merge_model(fold_decisions(s.drop_last()), decision_model(s.last()))
    }
}

impl PolicyTrace {
    pub fn new() -> (r: PolicyTrace)
        ensures
            r.decisions@ == Seq::<PolicyDecision>::empty(),
    {
        PolicyTrace { decisions: Vec::new() }
    }

    pub fn push(&mut self, decision: PolicyDecision)
        ensures
            final(self).decisions@ == old(self).decisions@.push(decision),
    {
        self.decisions.push(decision);
    }

    /// All decisions merged in order.
    pub fn final_decision(&self) -> (r: PolicyDecision)
        ensures
            decision_model(r) == fold_decisions(self.decisions@),
    {
        let mut acc = PolicyDecision::Accept;
        let mut i: usize = 0;
        while i < self.decisions.len()
            invariant
                i <= self.decisions@.len(),
                decision_model(acc) == fold_decisions(self.decisions@.take(i as int)),
            decreases self.decisions@.len() - i,
        {
            proof { assert(self.decisions@.take(i + 1).drop_last() == self.decisions@.take(i as int)); }
            acc = acc.merge(self.decisions[i].clone());
            i = i + 1;
        }
        proof { assert(self.decisions@.take(i as int) == self.decisions@); }
        acc
    }

    /// Fails with the merged reason when the merged decision rejects.
    pub fn ensure_accept(&self) -> (r: Result<()>)
        ensures
            fold_decisions(self.decisions@).0 < 2 ==> r is Ok,
            fold_decisions(self.decisions@).0 == 2 ==> (r matches Err(EclipseError::BidRejected(m))
                && m@ == fold_decisions(self.decisions@).1),
    {
        match self.final_decision() {
            PolicyDecision::Accept | PolicyDecision::Warn(_) => Ok(()),
            PolicyDecision::Reject(reason) => Err(EclipseError::BidRejected(reason)),
        }
    }
}

impl Default for PolicyTrace {
    fn default() -> (r: PolicyTrace)
        ensures
            r.decisions@ == Seq::<PolicyDecision>::empty(),
    {
        PolicyTrace::new()
    }
}

/// A trace accepts exactly when none of its decisions rejects.
pub proof fn law_trace_accepts_iff_no_reject(s: Seq<PolicyDecision>)
    ensures
        (fold_decisions(s).0 < 2) == (forall|i: int| 0 <= i < s.len() ==> decision_model(#[trigger] s[i]).0 < 2),
        model_wf(fold_decisions(s)),
    decreases s.len(),
{
    if s.len() > 0 {
        law_trace_accepts_iff_no_reject(s.drop_last());
        assert(model_wf(decision_model(s.last())));
        law_merge_accepts_iff_both(fold_decisions(s.drop_last()), decision_model(s.last()));
        if fold_decisions(s).0 < 2 {
            assert forall|i: int| 0 <= i < s.len() implies decision_model(#[trigger] s[i]).0 < 2 by {
                if i < s.len() - 1 {
                    assert(s[i] == s.drop_last()[i]);
                }
            }
        } else {
            if fold_decisions(s.drop_last()).0 == 2 {
                let j = choose|j: int| 0 <= j < s.drop_last().len() && !(decision_model(#[trigger] s.drop_last()[j]).0 < 2);
                assert(s[j] == s.drop_last()[j]);
            } else {
                assert(!(decision_model(s[s.len() - 1]).0 < 2));
            }
        }
    }
}

} // verus!
