//! Per-sandbox policies: which filters a policy is made of, how they are
//! installed without ever leaving half a policy behind, and how they are
//! removed.
//!
//! The filtering engine is driven from outside: an `Installation` or a
//! `Removal` says what to do next and is told what came of it.

use crate::engine::{win32_err, win32_error, Engine, SessionKind, FWP_E_ALREADY_EXISTS};
use crate::filter::{
    add_one_filter, filter_for, filter_views, layers_of, pick_layers, rule_defect, validate_rule,
    FilterAction, FilterSpec, FilterView, Guid, FWPM_LAYER_ALE_AUTH_CONNECT_V4,
    FWPM_LAYER_ALE_AUTH_CONNECT_V6, WEIGHT_DEFAULT_DENY, WEIGHT_EXPLICIT_ALLOW,
    WEIGHT_EXPLICIT_BLOCK,
};
use crate::ip::ip_literal;
use crate::proto::{
    is_random_uuid, rule_views, DefaultPolicy, ErrorView, PolicyId, Rule, RuleVerb, RuleView,
    ServiceError,
};
use crate::text::{begins_with, decimal, push_decimal};
use std::collections::HashMap;
use vstd::prelude::*;

verus! {

broadcast use vstd::std_specs::hash::group_hash_axioms;

/// How many policies may be active at a time.
pub const MAX_ACTIVE_POLICIES: usize = 64;

/// What every SID of an AppContainer begins with.
pub const APP_CONTAINER_PREFIX: &'static str = "S-1-15-2-";

/// What converting the text of a SID gave, as a sequence of bytes.
pub open spec fn sid_view(converted: Option<Vec<u8>>) -> Option<Seq<u8>> {
    match converted {
        Some(b) => Some(b@),
        None => None,
    }
}

/// The SID of an AppContainer in binary form.
#[derive(Debug)]
pub struct OwnedSid {
    bytes: Vec<u8>,
}

impl View for OwnedSid {
    type V = Seq<u8>;

    closed spec fn view(&self) -> Seq<u8> {
        self.bytes@
    }
}

impl OwnedSid {
    /// Takes the SID with the text `sddl`, given what converting the text
    /// gave. Only SIDs of AppContainers are accepted, whatever the conversion
    /// says.
    pub fn from_sddl(sddl: &str, converted: Option<Vec<u8>>) -> (r: Result<OwnedSid, ServiceError>)
        ensures
            r is Ok <==> APP_CONTAINER_PREFIX@.is_prefix_of(sddl@) && converted is Some,
            r is Ok <==> converted is Some && sddl@.len() >= 9 && sddl@.take(9) == "S-1-15-2-"@,
            r is Ok ==> r->Ok_0@ == converted->0@,
            r is Err ==> r->Err_0@ == ErrorView::InvalidAcSid(sddl@),
    {
        proof {
            reveal_strlit("S-1-15-2-");
        }
        if !begins_with(sddl, APP_CONTAINER_PREFIX) {
            return Err(ServiceError::InvalidAcSid(sddl.to_owned()));
        }
        match converted {
            Some(bytes) => Ok(OwnedSid { bytes }),
            None => Err(ServiceError::InvalidAcSid(sddl.to_owned())),
        }
    }

    /// The bytes of the SID.
    pub fn bytes(&self) -> (b: &Vec<u8>)
        ensures
            b@ == self@,
    {
        &self.bytes
    }
}

/// What a verb does with a connection.
pub open spec fn verb_action(v: RuleVerb) -> FilterAction {
    match v {
        RuleVerb::Allow => FilterAction::Permit,
        RuleVerb::Block => FilterAction::Block,
    }
}

/// The weight of the filters of a rule with this verb.
pub open spec fn verb_weight(v: RuleVerb) -> u64 {
    match v {
        RuleVerb::Allow => WEIGHT_EXPLICIT_ALLOW,
        RuleVerb::Block => WEIGHT_EXPLICIT_BLOCK,
    }
}

/// The filters of a rule, one for each of its layers.
pub open spec fn rule_filters(id: PolicyId, sid: Seq<u8>, rule: RuleView) -> Seq<FilterView> {
    layers_of(rule).map_values(
        |layer: Guid|
            filter_for(
                id,
                sid,
                layer,
                verb_action(rule.verb),
                verb_weight(rule.verb),
                Some(rule),
            ),
    )
}

/// The filters of a list of rules, in its order.
pub open spec fn rules_filters(id: PolicyId, sid: Seq<u8>, rules: Seq<RuleView>) -> Seq<FilterView>
    decreases rules.len(),
{
    if rules.len() == 0 {
        Seq::empty()
    } else {
        rules_filters(id, sid, rules.drop_last()) + rule_filters(id, sid, rules.last())
    }
}

/// The filters that block whatever no rule speaks of: none if the default is
/// to allow.
pub open spec fn default_filters(id: PolicyId, sid: Seq<u8>, default: DefaultPolicy) -> Seq<
    FilterView,
> {
    match default {
        DefaultPolicy::Allow => Seq::empty(),
        DefaultPolicy::Block => seq![
            filter_for(
                id,
                sid,
                FWPM_LAYER_ALE_AUTH_CONNECT_V4,
                FilterAction::Block,
                WEIGHT_DEFAULT_DENY,
                None,
            ),
            filter_for(
                id,
                sid,
                FWPM_LAYER_ALE_AUTH_CONNECT_V6,
                FilterAction::Block,
                WEIGHT_DEFAULT_DENY,
                None,
            ),
        ],
    }
}

/// All filters of a policy, in the order in which they are installed: those
/// of the default first, so that what the rules allow is carved out of it.
pub open spec fn plan(
    id: PolicyId,
    sid: Seq<u8>,
    default: DefaultPolicy,
    rules: Seq<RuleView>,
) -> Seq<FilterView> {
    default_filters(id, sid, default) + rules_filters(id, sid, rules)
}

/// The first rule of a list that is rejected.
pub open spec fn first_defect(rules: Seq<RuleView>, i: int) -> bool {
    &&& 0 <= i < rules.len()
    &&& rule_defect(rules[i]) is Some
    &&& forall|j: int| 0 <= j < i ==> rule_defect(#[trigger] rules[j]) is None
}

/// Whether all rules of a list are accepted.
pub open spec fn all_valid(rules: Seq<RuleView>) -> bool {
    forall|i: int| 0 <= i < rules.len() ==> rule_defect(#[trigger] rules[i]) is None
}

/// The error for a list of rules with a rejected one: it names the first.
pub open spec fn rules_error(rules: Seq<RuleView>) -> ErrorView {
    let i = choose|i: int| first_defect(rules, i);
    ErrorView::InvalidRule { index: i as u32, reason: rule_defect(rules[i])->0 }
}

/// Accepts a list of rules or says what is wrong with the first bad one.
pub fn validate_rules(rules: &[Rule]) -> (r: Result<(), ServiceError>)
    ensures
        r is Ok <==> all_valid(rule_views(rules@)),
        r is Err ==> r->Err_0@ == rules_error(rule_views(rules@)),
{
    let ghost views = rule_views(rules@);
    let mut i: usize = 0;
    while i < rules.len()
        invariant
            i <= rules.len(),
            views == rule_views(rules@),
            forall|j: int| 0 <= j < i ==> rule_defect(#[trigger] views[j]) is None,
        decreases rules.len() - i,
    {
        assert(views[i as int] == rules@[i as int]@);
        match validate_rule(i, &rules[i]) {
            Ok(_) => {},
            Err(e) => {
                proof {
                    assert(first_defect(views, i as int));
                    let k = choose|k: int| first_defect(views, k);
                    assert(first_defect(views, k));
                    assert(k == i) by {
                        if k < i {
                            assert(rule_defect(views[k]) is None);
                        } else if i < k {
                            assert(rule_defect(views[i as int]) is None);
                        }
                    }
                }
                return Err(e);
            },
        }
        i = i + 1;
    }
    Ok(())
}

/// The state of a list of filters under way to the engine.
#[derive(Debug)]
pub struct Installation {
    id: PolicyId,
    plan: Vec<FilterSpec>,
    installed: Vec<u64>,
    failure: Option<ServiceError>,
    undone: usize,
}

/// An installation as its contracts speak of it: `installed` holds the
/// identifiers that the engine gave to the first filters of the plan, and the
/// first `undone` of them have been deleted again.
pub struct InstallationView {
    pub id: PolicyId,
    pub plan: Seq<FilterView>,
    pub installed: Seq<u64>,
    pub failure: Option<ErrorView>,
    pub undone: nat,
}

/// What an installation asks for.
#[derive(Debug, Clone, Copy, PartialEq, Eq, Structural)]
pub enum InstallStep {
    /// Add the filter that `filter` describes.
    Install,
    /// Delete the filter with this identifier.
    Delete(u64),
    /// All filters are installed.
    Commit,
    /// A filter was refused and nothing of the policy is left.
    Abort,
}

impl InstallationView {
    /// What can be: a plan is installed from the front, and filters are
    /// deleted only after one was refused.
    pub open spec fn wf(self) -> bool {
        &&& self.installed.len() <= self.plan.len()
        &&& self.undone <= self.installed.len()
        &&& self.failure is None ==> self.undone == 0
        &&& self.failure is Some ==> self.installed.len() < self.plan.len()
    }

    /// What is due: the next filter, the next deletion, or the end.
    pub open spec fn step(self) -> InstallStep {
        if self.failure is None {
            if self.installed.len() < self.plan.len() {
                InstallStep::Install
            } else {
                InstallStep::Commit
            }
        } else if self.undone < self.installed.len() {
            InstallStep::Delete(self.installed[self.undone as int])
        } else {
            InstallStep::Abort
        }
    }

    /// The installation after the engine answered an `Install`.
    pub open spec fn answered(self, rc: u32, filter_id: u64) -> InstallationView {
        if rc == 0 {
            InstallationView { installed: self.installed.push(filter_id), ..self }
        } else {
            InstallationView { failure: Some(win32_error("FwpmFilterAdd0"@, rc)), ..self }
        }
    }

    /// The installation after a `Delete`.
    pub open spec fn deleted(self) -> InstallationView {
        InstallationView { undone: self.undone + 1, ..self }
    }
}

impl View for Installation {
    type V = InstallationView;

    closed spec fn view(&self) -> InstallationView {
        InstallationView {
            id: self.id,
            plan: filter_views(self.plan@),
            installed: self.installed@,
            failure: match self.failure {
                Some(e) => Some(e@),
                None => None,
            },
            undone: self.undone as nat,
        }
    }
}

impl Installation {
    #[verifier::type_invariant]
    spec fn inv(self) -> bool {
        self@.wf()
    }

    /// An installation that has not begun.
    fn begin(id: PolicyId, plan: Vec<FilterSpec>) -> (t: Installation)
        ensures
            t@ == (InstallationView {
                id,
                plan: filter_views(plan@),
                installed: Seq::empty(),
                failure: None,
                undone: 0,
            }),
    {
        Installation { id, plan, installed: Vec::new(), failure: None, undone: 0 }
    }

    /// What to do next.
    pub fn step(&self) -> (s: InstallStep)
        ensures
            s == self@.step(),
            self@.wf(),
            s is Install <==> self@.failure is None && self@.installed.len() < self@.plan.len(),
            s is Commit <==> self@.failure is None && self@.installed.len() == self@.plan.len(),
            s is Delete <==> self@.failure is Some && self@.undone < self@.installed.len(),
            s is Delete ==> s->Delete_0 == self@.installed[self@.undone as int],
            s is Abort <==> self@.failure is Some && self@.undone == self@.installed.len(),
    {
        proof {
            use_type_invariant(self);
        }
        match self.failure {
            None => if self.installed.len() < self.plan.len() {
                InstallStep::Install
            } else {
                InstallStep::Commit
            },
            Some(_) => if self.undone < self.installed.len() {
                InstallStep::Delete(self.installed[self.undone])
            } else {
                InstallStep::Abort
            },
        }
    }

    /// The filter to install now.
    pub fn filter(&self) -> (f: &FilterSpec)
        requires
            self@.step() is Install,
        ensures
            f@ == self@.plan[self@.installed.len() as int],
    {
        &self.plan[self.installed.len()]
    }

    /// Takes the answer of the engine to an `Install`.
    pub fn answered(&mut self, rc: u32, filter_id: u64)
        requires
            old(self)@.step() is Install,
        ensures
            final(self)@ == old(self)@.answered(rc, filter_id),
            final(self)@.id == old(self)@.id,
            final(self)@.plan == old(self)@.plan,
            final(self)@.undone == old(self)@.undone,
            rc == 0 ==> final(self)@.installed == old(self)@.installed.push(filter_id)
                && final(self)@.failure is None,
            rc != 0 ==> final(self)@.installed == old(self)@.installed && final(self)@.failure
                == Some(win32_error("FwpmFilterAdd0"@, rc)),
    {
        proof {
            use_type_invariant(&*self);
        }
        if rc == 0 {
            let mut installed: Vec<u64> = Vec::new();
            std::mem::swap(&mut installed, &mut self.installed);
            installed.push(filter_id);
            self.installed = installed;
        } else {
            self.failure = Some(win32_err("FwpmFilterAdd0", rc));
        }
    }

    /// Takes note that a `Delete` was performed. Its result does not matter.
    pub fn deleted(&mut self)
        requires
            old(self)@.step() is Delete,
        ensures
            final(self)@ == old(self)@.deleted(),
            final(self)@ == (InstallationView { undone: old(self)@.undone + 1, ..old(self)@ }),
    {
        proof {
            use_type_invariant(&*self);
        }
        assert(self.undone < self.installed.len());
        self.undone = self.undone + 1;
    }
}

/// A valid rule has no address or one that is an IP literal.
proof fn lemma_valid_address(rule: RuleView)
    requires
        rule_defect(rule) is None,
    ensures
        rule.address is Some ==> ip_literal(rule.address->0) is Some,
{
}

/// Describes all filters of a policy.
fn build_plan(id: &PolicyId, sid: &OwnedSid, default: &DefaultPolicy, rules: &[Rule]) -> (p: Vec<
    FilterSpec,
>)
    requires
        all_valid(rule_views(rules@)),
    ensures
        filter_views(p@) == plan(*id, sid@, *default, rule_views(rules@)),
{
    let ghost views = rule_views(rules@);
    let ghost head = default_filters(*id, sid@, *default);
    let mut p: Vec<FilterSpec> = Vec::new();
    match default {
        DefaultPolicy::Allow => {},
        DefaultPolicy::Block => {
            push_filter(
                &mut p,
                id,
                sid,
                FWPM_LAYER_ALE_AUTH_CONNECT_V4,
                FilterAction::Block,
                WEIGHT_DEFAULT_DENY,
                None,
            );
            push_filter(
                &mut p,
                id,
                sid,
                FWPM_LAYER_ALE_AUTH_CONNECT_V6,
                FilterAction::Block,
                WEIGHT_DEFAULT_DENY,
                None,
            );
        },
    }
    assert(filter_views(p@) =~= head + rules_filters(*id, sid@, views.take(0)));
    let mut i: usize = 0;
    while i < rules.len()
        invariant
            i <= rules.len(),
            views == rule_views(rules@),
            all_valid(views),
            filter_views(p@) == head + rules_filters(*id, sid@, views.take(i as int)),
        decreases rules.len() - i,
    {
        let rule: &Rule = &rules[i];
        assert(views[i as int] == rule@);
        proof {
            lemma_valid_address(rule@);
        }
        let (action, weight): (FilterAction, u64) = match rule.verb {
            RuleVerb::Allow => (FilterAction::Permit, WEIGHT_EXPLICIT_ALLOW),
            RuleVerb::Block => (FilterAction::Block, WEIGHT_EXPLICIT_BLOCK),
        };
        let layers: Vec<Guid> = pick_layers(rule);
        let ghost before = filter_views(p@);
        let ghost own = rule_filters(*id, sid@, rule@);
        let mut k: usize = 0;
        assert(before + own.take(0) =~= before);
        while k < layers.len()
            invariant
                k <= layers.len(),
                layers@ == layers_of(rule@),
                action == verb_action(rule@.verb),
                weight == verb_weight(rule@.verb),
                rule@.address is Some ==> ip_literal(rule@.address->0) is Some,
                own == rule_filters(*id, sid@, rule@),
                filter_views(p@) == before + own.take(k as int),
            decreases layers.len() - k,
        {
            push_filter(&mut p, id, sid, layers[k], action, weight, Some(rule));
            assert(own.take(k + 1) =~= own.take(k as int).push(own[k as int]));
            assert(before + own.take(k + 1) =~= (before + own.take(k as int)).push(own[k as int]));
            k = k + 1;
        }
        assert(own.take(own.len() as int) =~= own);
        assert(views.take(i + 1).drop_last() =~= views.take(i as int));
        assert(head + rules_filters(*id, sid@, views.take(i as int)) + own =~= head + (
        rules_filters(*id, sid@, views.take(i as int)) + own));
        i = i + 1;
    }
    assert(views.take(views.len() as int) =~= views);
    p
}

/// Describes one filter and appends it.
fn push_filter(
    p: &mut Vec<FilterSpec>,
    id: &PolicyId,
    sid: &OwnedSid,
    layer: Guid,
    action: FilterAction,
    weight: u64,
    rule: Option<&Rule>,
)
    requires
        rule is Some && rule->0@.address is Some ==> ip_literal(rule->0@.address->0) is Some,
    ensures
        filter_views(final(p)@) == filter_views(old(p)@).push(
            filter_for(
                *id,
                sid@,
                layer,
                action,
                weight,
                match rule {
                    Some(x) => Some(x@),
                    None => None,
                },
            ),
        ),
{
    match add_one_filter(id, sid.bytes(), layer, action, weight, rule) {
        Ok(f) => {
            p.push(f);
            assert(filter_views(p@) =~= filter_views(old(p)@).push(f@));
        },
        Err(_) => {
            assert(false);
        },
    }
}

/// Why a policy is refused before anything reaches the engine, if it is: the
/// first of these that holds. Too many policies, a bad rule, a bad SID.
pub open spec fn policy_refusal(
    active: nat,
    sddl: Seq<char>,
    converted: Option<Seq<u8>>,
    rules: Seq<RuleView>,
) -> Option<ErrorView> {
    if active >= MAX_ACTIVE_POLICIES {
        Some(
            ErrorView::ResourceExhausted(
                "active policies at cap ("@ + decimal(MAX_ACTIVE_POLICIES as nat) + ")"@,
            ),
        )
    } else if !all_valid(rules) {
        Some(rules_error(rules))
    } else if !APP_CONTAINER_PREFIX@.is_prefix_of(sddl) || converted is None {
        Some(ErrorView::InvalidAcSid(sddl))
    } else {
        None
    }
}

/// The active policies: for each the identifiers of its filters.
#[derive(Debug)]
pub struct PolicyManager {
    engine: Engine,
    policies: HashMap<u128, Vec<u64>>,
}

/// The broker's engine: a policy manager of its own.
pub type WfpEngine = PolicyManager;

impl View for PolicyManager {
    type V = Map<u128, Seq<u64>>;

    closed spec fn view(&self) -> Map<u128, Seq<u64>> {
        self.policies@.map_values(|v: Vec<u64>| v@)
    }
}

impl PolicyManager {
    /// The session that the policies stand in.
    pub closed spec fn spec_engine(&self) -> Engine {
        self.engine
    }

    /// Begins to open the engine.
    pub fn open() -> (o: Opening)
        ensures
            o is Engine,
    {
        Opening::Engine
    }

    /// A manager without policies on a session.
    fn new(engine: Engine) -> (m: PolicyManager)
        ensures
            m@ == Map::<u128, Seq<u64>>::empty(),
            m.spec_engine() == engine,
    {
        let m: PolicyManager = PolicyManager { engine, policies: HashMap::new() };
        assert(m@ =~= Map::<u128, Seq<u64>>::empty());
        m
    }

    /// The session of the manager.
    pub fn engine(&self) -> (e: Engine)
        ensures
            e == self.spec_engine(),
    {
        self.engine
    }

    /// How many policies are active.
    pub fn active(&self) -> (n: usize)
        ensures
            n == self@.dom().len(),
    {
        assert(self@.dom() =~= self.policies@.dom());
        self.policies.len()
    }

    /// Begins to install a policy under a fresh identifier, or refuses it.
    /// Nothing is active before `finish`.
    pub fn add_policy(
        &self,
        ac_sid_sddl: &str,
        converted: Option<Vec<u8>>,
        default: &DefaultPolicy,
        rules: &[Rule],
    ) -> (r: Result<Installation, ServiceError>)
        ensures
            converted is None ==> r is Err,
            self@.dom().len() >= 64 ==> r is Err,
            ({
                let refusal = policy_refusal(
                    self@.dom().len(),
                    ac_sid_sddl@,
                    sid_view(converted),
                    rule_views(rules@),
                );
                match r {
                    Ok(t) => refusal is None && is_random_uuid(t@.id.0) && t@ == (
                    InstallationView {
                        id: t@.id,
                        plan: plan(t@.id, converted->0@, *default, rule_views(rules@)),
                        installed: Seq::empty(),
                        failure: None,
                        undone: 0,
                    }),
                    Err(e) => refusal == Some(e@),
                }
            }),
    {
        self.add_policy_as(PolicyId::new_random(), ac_sid_sddl, converted, default, rules)
    }

    /// As `add_policy`, under a given identifier.
    pub fn add_policy_as(
        &self,
        id: PolicyId,
        ac_sid_sddl: &str,
        converted: Option<Vec<u8>>,
        default: &DefaultPolicy,
        rules: &[Rule],
    ) -> (r: Result<Installation, ServiceError>)
        ensures
            converted is None ==> r is Err,
            self@.dom().len() >= 64 ==> r is Err,
            ({
                let refusal = policy_refusal(
                    self@.dom().len(),
                    ac_sid_sddl@,
                    sid_view(converted),
                    rule_views(rules@),
                );
                match r {
                    Ok(t) => refusal is None && t@ == (InstallationView {
                        id,
                        plan: plan(id, converted->0@, *default, rule_views(rules@)),
                        installed: Seq::empty(),
                        failure: None,
                        undone: 0,
                    }),
                    Err(e) => refusal == Some(e@),
                }
            }),
    {
        if self.active() >= MAX_ACTIVE_POLICIES {
            let mut m: String = "active policies at cap (".to_owned();
            push_decimal(&mut m, MAX_ACTIVE_POLICIES as u64);
            m.append(")");
            return Err(ServiceError::ResourceExhausted(m));
        }
        match validate_rules(rules) {
            Ok(_) => {},
            Err(e) => {
                return Err(e);
            },
        }
        let sid: OwnedSid = match OwnedSid::from_sddl(ac_sid_sddl, converted) {
            Ok(sid) => sid,
            Err(e) => {
                return Err(e);
            },
        };
        Ok(Installation::begin(id, build_plan(&id, &sid, default, rules)))
    }

    /// Ends an installation: a committed one becomes active, of an aborted one
    /// only the error is left. A policy is known by its identifier and the
    /// number of its filters.
    pub fn finish(&mut self, t: Installation) -> (r: Result<(PolicyId, u32), ServiceError>)
        requires
            t@.step() is Commit || t@.step() is Abort,
        ensures
            final(self).spec_engine() == old(self).spec_engine(),
            r is Ok <==> t@.step() is Commit,
            r is Ok ==> r->Ok_0 == (t@.id, t@.plan.len() as u32) && final(self)@
                == old(self)@.insert(t@.id.0, t@.installed) && t@.installed.len()
                == t@.plan.len(),
            r is Err ==> Some(r->Err_0@) == t@.failure && final(self)@ == old(self)@,
    {
        proof {
            use_type_invariant(&t);
        }
        match t.failure {
            Some(e) => Err(e),
            None => {
                let count: u32 = t.installed.len() as u32;
                let id: PolicyId = t.id;
                let ghost ids = t.installed@;
                self.policies.insert(id.0, t.installed);
                assert(self@ =~= old(self)@.insert(id.0, ids));
                Ok((id, count))
            },
        }
    }

    /// Takes a policy out of the active ones; its filters are then to be
    /// deleted.
    pub fn remove_policy(&mut self, policy_id: PolicyId) -> (r: Result<Removal, ServiceError>)
        ensures
            final(self).spec_engine() == old(self).spec_engine(),
            final(self)@ == old(self)@.remove(policy_id.0),
            r is Ok <==> old(self)@.contains_key(policy_id.0),
            r is Ok ==> r->Ok_0@ == (RemovalView {
                ids: old(self)@[policy_id.0],
                next: 0,
                removed: 0,
            }),
            r is Err ==> r->Err_0@ == ErrorView::UnknownPolicy(policy_id),
    {
        let taken: Option<Vec<u64>> = self.policies.remove(&policy_id.0);
        assert(self@ =~= old(self)@.remove(policy_id.0));
        match taken {
            Some(ids) => Ok(Removal { ids, next: 0, removed: 0 }),
            None => Err(ServiceError::UnknownPolicy(policy_id)),
        }
    }
}

/// The way to a manager: open a dynamic session, then add the provider and
/// the sublayer that all filters refer to.
#[derive(Debug)]
pub enum Opening {
    /// Open a session of the kind that `session_kind` gives.
    Engine,
    /// Add the provider in this session.
    Provider(Engine),
    /// Add the sublayer in this session.
    Sublayer(Engine),
    /// The manager is there.
    Ready(PolicyManager),
    /// A call failed.
    Failed(ServiceError),
}

/// Whether the engine has an object after it was asked to add it.
pub open spec fn is_present(rc: u32) -> bool {
    rc == 0 || rc == FWP_E_ALREADY_EXISTS
}

impl Opening {
    /// The kind of the session to open, where one is to be opened. It is a
    /// dynamic one, so that whatever the service adds goes when the service
    /// does.
    pub fn session_kind(&self) -> (k: Option<SessionKind>)
        ensures
            k == (if self is Engine {
                Some(SessionKind::Dynamic)
            } else {
                None
            }),
    {
        match self {
            Opening::Engine => Some(SessionKind::Dynamic),
            _ => None,
        }
    }

    /// Takes the status of the call that was due, and the handle if that call
    /// opened the session.
    pub fn answered(self, rc: u32, handle: u64) -> (next: Opening)
        ensures
            self is Provider ==> (next is Sublayer <==> rc == 0 || rc == 0x8032_0009),
            self is Sublayer ==> (next is Ready <==> rc == 0 || rc == 0x8032_0009),
            match self {
                Opening::Engine => if rc == 0 {
                    next is Provider && next->Provider_0.spec_handle() == handle
                } else {
                    next is Failed && next->Failed_0@ == win32_error("FwpmEngineOpen0"@, rc)
                },
                Opening::Provider(e) => if is_present(rc) {
                    next == Opening::Sublayer(e)
                } else {
                    next is Failed && next->Failed_0@ == win32_error("FwpmProviderAdd0"@, rc)
                },
                Opening::Sublayer(e) => if is_present(rc) {
                    next is Ready && next->Ready_0.spec_engine() == e && next->Ready_0@
                        == Map::<u128, Seq<u64>>::empty()
                } else {
                    next is Failed && next->Failed_0@ == win32_error("FwpmSubLayerAdd0"@, rc)
                },
                _ => next == self,
            },
    {
        match self {
            Opening::Engine => match Engine::open(rc, handle) {
                Ok(e) => Opening::Provider(e),
                Err(e) => Opening::Failed(e),
            },
            Opening::Provider(e) => if rc != 0 && rc != FWP_E_ALREADY_EXISTS {
                Opening::Failed(win32_err("FwpmProviderAdd0", rc))
            } else {
                Opening::Sublayer(e)
            },
            Opening::Sublayer(e) => if rc != 0 && rc != FWP_E_ALREADY_EXISTS {
                Opening::Failed(win32_err("FwpmSubLayerAdd0", rc))
            } else {
                Opening::Ready(PolicyManager::new(e))
            },
            other => other,
        }
    }
}

/// The state of a list of filters on its way out of the engine.
#[derive(Debug)]
pub struct Removal {
    ids: Vec<u64>,
    next: usize,
    removed: usize,
}

/// A removal as its contracts speak of it: the filters, how many of them the
/// engine was asked to delete, and how many it said that it did.
pub struct RemovalView {
    pub ids: Seq<u64>,
    pub next: nat,
    pub removed: nat,
}

impl RemovalView {
    /// The filter to delete next.
    pub open spec fn step(self) -> Option<u64> {
        if self.next < self.ids.len() {
            Some(self.ids[self.next as int])
        } else {
            None
        }
    }

    /// The removal after the engine answered a deletion.
    pub open spec fn answered(self, rc: u32) -> RemovalView {
        RemovalView {
            ids: self.ids,
            next: self.next + 1,
            removed: if rc == 0 {
                self.removed + 1
            } else {
                self.removed
            },
        }
    }
}

impl View for Removal {
    type V = RemovalView;

    closed spec fn view(&self) -> RemovalView {
        RemovalView { ids: self.ids@, next: self.next as nat, removed: self.removed as nat }
    }
}

impl Removal {
    #[verifier::type_invariant]
    spec fn inv(self) -> bool {
        self.removed <= self.next <= self.ids.len()
    }

    /// The filter to delete next, if there is one left.
    pub fn step(&self) -> (id: Option<u64>)
        ensures
            id == self@.step(),
            id is Some <==> self@.next < self@.ids.len(),
            id is Some ==> id->0 == self@.ids[self@.next as int],
    {
        if self.next < self.ids.len() {
            Some(self.ids[self.next])
        } else {
            None
        }
    }

    /// Takes the answer of the engine to a deletion.
    pub fn answered(&mut self, rc: u32)
        requires
            old(self)@.step() is Some,
        ensures
            final(self)@ == old(self)@.answered(rc),
            final(self)@.ids == old(self)@.ids,
            final(self)@.next == old(self)@.next + 1,
            final(self)@.removed == old(self)@.removed + if rc == 0 {
                1int
            } else {
                0
            },
    {
        proof {
            use_type_invariant(&*self);
        }
        assert(self.next < self.ids.len());
        self.next = self.next + 1;
        if rc == 0 {
            self.removed = self.removed + 1;
        }
    }

    /// How many filters the engine said that it deleted.
    pub fn removed(&self) -> (n: u32)
        ensures
            n == self@.removed as u32,
    {
        self.removed as u32
    }
}

/// A policy is accepted exactly if fewer than 64 are active, none of its rules
/// is rejected, its SID begins as those of AppContainers do, and the SID could be
/// converted.
pub proof fn law_policy_is_accepted_iff(
    active: nat,
    sddl: Seq<char>,
    converted: Option<Seq<u8>>,
    rules: Seq<RuleView>,
)
    ensures
        policy_refusal(active, sddl, converted, rules) is None <==> {
            &&& active < 64
            &&& forall|i: int| 0 <= i < rules.len() ==> rule_defect(#[trigger] rules[i]) is None
            &&& sddl.len() >= 9
            &&& sddl.take(9) == "S-1-15-2-"@
            &&& converted is Some
        },
{
    reveal_strlit("S-1-15-2-");
}

/// What a refused policy is told: first that there are too many, then the first
/// of its rules that is rejected and why, and last its SID.
pub proof fn law_policy_refusal_names_the_reason(
    active: nat,
    sddl: Seq<char>,
    converted: Option<Seq<u8>>,
    rules: Seq<RuleView>,
    i: int,
)
    ensures
        active >= 64 ==> policy_refusal(active, sddl, converted, rules) == Some(
            ErrorView::ResourceExhausted("active policies at cap (64)"@),
        ),
        active < 64 && 0 <= i < rules.len() && rule_defect(rules[i]) is Some && (forall|j: int|
            0 <= j < i ==> rule_defect(#[trigger] rules[j]) is None) ==> policy_refusal(
            active,
            sddl,
            converted,
            rules,
        ) == Some(
            ErrorView::InvalidRule { index: i as u32, reason: rule_defect(rules[i])->0 },
        ),
        active < 64 && (forall|j: int|
            0 <= j < rules.len() ==> rule_defect(#[trigger] rules[j]) is None) && (converted is None
            || sddl.len() < 9 || sddl.take(9) != "S-1-15-2-"@) ==> policy_refusal(
            active,
            sddl,
            converted,
            rules,
        ) == Some(ErrorView::InvalidAcSid(sddl)),
{
    reveal_strlit("S-1-15-2-");
    reveal_strlit("active policies at cap (");
    reveal_strlit(")");
    reveal_strlit("active policies at cap (64)");
    reveal_with_fuel(decimal, 3);
    assert(decimal(64) =~= seq!['6', '4']);
    assert("active policies at cap ("@ + decimal(64) + ")"@ =~= "active policies at cap (64)"@);
    if 0 <= i < rules.len() && rule_defect(rules[i]) is Some && (forall|j: int|
        0 <= j < i ==> rule_defect(#[trigger] rules[j]) is None) {
        assert(first_defect(rules, i));
        let k = choose|k: int| first_defect(rules, k);
        assert(first_defect(rules, k));
        if k < i {
            assert(rule_defect(rules[k]) is None);
        } else if i < k {
            assert(rule_defect(rules[i]) is None);
        }
        assert(!all_valid(rules));
    }
}

/// The filters of rules are those of the one list and then those of the other,
/// and those of one rule are one for each of its layers, permitting for a rule
/// that allows and blocking for a rule that blocks, which weighs more.
pub proof fn law_filters_of_rules(
    id: PolicyId,
    sid: Seq<u8>,
    a: Seq<RuleView>,
    b: Seq<RuleView>,
    rule: RuleView,
    k: int,
)
    requires
        0 <= k < layers_of(rule).len(),
    ensures
        rules_filters(id, sid, a + b) == rules_filters(id, sid, a) + rules_filters(id, sid, b),
        rules_filters(id, sid, seq![rule]).len() == layers_of(rule).len(),
        rules_filters(id, sid, seq![rule])[k] == filter_for(
            id,
            sid,
            layers_of(rule)[k],
            if rule.verb is Allow {
                FilterAction::Permit
            } else {
                FilterAction::Block
            },
            if rule.verb is Allow {
                0x1000_0000
            } else {
                0x2000_0000
            },
            Some(rule),
        ),
{
    lemma_rules_filters_add(id, sid, a, b);
    let own = rule_filters(id, sid, rule);
    assert(rules_filters(id, sid, seq![rule]) == own) by {
        reveal_with_fuel(rules_filters, 2);
        assert(seq![rule].drop_last() =~= Seq::<RuleView>::empty());
        assert(rules_filters(id, sid, seq![rule]) =~= own);
    }
}

proof fn lemma_rules_filters_add(
    id: PolicyId,
    sid: Seq<u8>,
    a: Seq<RuleView>,
    b: Seq<RuleView>,
)
    ensures
        rules_filters(id, sid, a + b) == rules_filters(id, sid, a) + rules_filters(id, sid, b),
    decreases b.len(),
{
    let front = rules_filters(id, sid, a);
    if b.len() == 0 {
        assert(a + b =~= a);
        assert(front + rules_filters(id, sid, b) =~= front);
    } else {
        let u = b.drop_last();
        let last = rule_filters(id, sid, b.last());
        lemma_rules_filters_add(id, sid, a, u);
        assert((a + b).drop_last() =~= a + u);
        assert(front + rules_filters(id, sid, u) + last =~= front + (rules_filters(id, sid, u)
            + last));
    }
}

/// The filters of a policy are those of its default and then those of its rules.
/// A default that allows has none; one that blocks has one for IPv4 and one for
/// IPv6, of the least weight and on the sandbox alone.
pub proof fn law_filters_of_a_policy(id: PolicyId, sid: Seq<u8>, rules: Seq<RuleView>)
    ensures
        plan(id, sid, DefaultPolicy::Allow, rules) == rules_filters(id, sid, rules),
        plan(id, sid, DefaultPolicy::Block, rules) == seq![
            filter_for(
                id,
                sid,
                0xc38d57d1_05a7_4c33_904f_7fbceee60e82,
                FilterAction::Block,
                1,
                None,
            ),
            filter_for(
                id,
                sid,
                0x4a72393b_319f_44bc_84c3_ba54dcb3b6b4,
                FilterAction::Block,
                1,
                None,
            ),
        ] + rules_filters(id, sid, rules),
{
    assert(plan(id, sid, DefaultPolicy::Allow, rules) =~= rules_filters(id, sid, rules));
}

/// An object that the engine has, or has already, is there, and a failed call is
/// one with any other status.
pub proof fn law_present(rc: u32)
    ensures
        is_present(rc) <==> rc == 0 || rc == 0x8032_0009,
{
}

} // verus!
