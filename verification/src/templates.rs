//! Decisions of the environment template manager: checking the parameters
//! given for a template, the key under which an environment made from a
//! template is cached, when a cached environment has expired, and the
//! steps of a health check with self-healing.

use vstd::prelude::*;
use vstd::relations::{sorted_by, total_ordering};
use crate::environment::{
    find_provided, join_strings, joined, opt_view, param_json, param_json_text, parameter_error, provided_value,
    validate_parameter, ParamValue, TemplateParameter,
};
use crate::model::TestHarnessError;
use crate::text::{to_chars, views};

verus! {

/// The first error among the parameters, taken in order: each is checked
/// as `parameter_error` describes, with the value provided for it (its
/// default does not count here) and the outcome of its numeric check.
pub open spec fn first_parameter_error(
    params: Seq<TemplateParameter>,
    provided: Seq<(String, ParamValue)>,
    numeric: Seq<Option<String>>,
) -> Option<Seq<char>>
    decreases params.len(),
{
    if params.len() == 0 {
        None
    } else {
        match parameter_error(params[0], provided_value(provided, params[0].name@), opt_view(numeric[0])) {
            Some(m) => Some(m),
            None => first_parameter_error(params.drop_first(), provided, numeric.drop_first()),
        }
    }
}

/// Checks the values provided for a template's parameters: the first
/// failed check, in the order of the parameters, is a configuration error
/// with its message. `numeric[i]` is the message of the failed numeric
/// bound of parameter `i`, if any; numbers are compared by the runner.
pub fn validate_parameters(
    params: &Vec<TemplateParameter>,
    provided: &Vec<(String, ParamValue)>,
    numeric: &Vec<Option<String>>,
) -> (r: Result<(), TestHarnessError>)
    requires
        numeric.len() == params.len(),
    ensures
        match first_parameter_error(params@, provided@, numeric@) {
            None => r is Ok,
            Some(m) => r matches Err(TestHarnessError::ConfigurationError(x)) && x@ == m,
        },
{
    let mut i: usize = 0;
    assert(params@.subrange(0, params.len() as int) =~= params@);
    assert(numeric@.subrange(0, numeric.len() as int) =~= numeric@);
    while i < params.len()
        invariant
            i <= params.len(),
            numeric.len() == params.len(),
            first_parameter_error(params@, provided@, numeric@) == first_parameter_error(
                params@.subrange(i as int, params.len() as int),
                provided@,
                numeric@.subrange(i as int, numeric.len() as int),
            ),
        decreases params.len() - i,
    {
        let ghost ps = params@.subrange(i as int, params.len() as int);
        let ghost ns = numeric@.subrange(i as int, numeric.len() as int);
        assert(ps.drop_first() =~= params@.subrange(i + 1, params.len() as int));
        assert(ns.drop_first() =~= numeric@.subrange(i + 1, numeric.len() as int));
        assert(ps[0] == params@[i as int]);
        assert(ns[0] == numeric@[i as int]);
        let p = &params[i];
        let value = find_provided(provided, p.name.as_str());
        let check = match &numeric[i] {
            Some(m) => validate_parameter(p, value.as_ref(), Some(m.as_str())),
            None => validate_parameter(p, value.as_ref(), None),
        };
        if check.is_err() {
            return check;
        }
        i += 1;
    }
    Ok(())
}

/// `a` sorts before `b`, or equals it, comparing character by character
/// as strings compare.
pub open spec fn lex_le(a: Seq<char>, b: Seq<char>) -> bool
    decreases a.len(),
{
    if a.len() == 0 {
        true
    } else if b.len() == 0 {
        false
    } else if a[0] != b[0] {
        a[0] < b[0]
    } else {
        lex_le(a.drop_first(), b.drop_first())
    }
}

/// The order of texts as a relation.
pub open spec fn text_order() -> spec_fn(Seq<char>, Seq<char>) -> bool {
    |a: Seq<char>, b: Seq<char>| lex_le(a, b)
}

proof fn lemma_lex_reflexive(a: Seq<char>)
    ensures
        lex_le(a, a),
    decreases a.len(),
{
    if a.len() > 0 {
        lemma_lex_reflexive(a.drop_first());
    }
}

proof fn lemma_lex_total(a: Seq<char>, b: Seq<char>)
    ensures
        lex_le(a, b) || lex_le(b, a),
    decreases a.len(),
{
    if a.len() > 0 && b.len() > 0 && a[0] == b[0] {
        lemma_lex_total(a.drop_first(), b.drop_first());
    }
}

proof fn lemma_lex_antisymmetric(a: Seq<char>, b: Seq<char>)
    requires
        lex_le(a, b),
        lex_le(b, a),
    ensures
        a == b,
    decreases a.len(),
{
    if a.len() == 0 {
        assert(a =~= b);
    } else {
        assert(b.len() > 0);
        assert(a[0] == b[0]);
        lemma_lex_antisymmetric(a.drop_first(), b.drop_first());
        assert(a.drop_first() == b.drop_first());
        assert(a.drop_first().len() == b.drop_first().len());
        assert(a.len() == b.len());
        assert forall|i: int| 0 <= i < a.len() implies a[i] == b[i] by {
            if i > 0 {
                assert(a[i] == a.drop_first()[i - 1]);
                assert(b[i] == b.drop_first()[i - 1]);
            }
        }
        assert(a =~= b);
    }
}

proof fn lemma_lex_transitive(a: Seq<char>, b: Seq<char>, c: Seq<char>)
    requires
        lex_le(a, b),
        lex_le(b, c),
    ensures
        lex_le(a, c),
    decreases a.len(),
{
    if a.len() > 0 && a[0] == b[0] && b[0] == c[0] {
        lemma_lex_transitive(a.drop_first(), b.drop_first(), c.drop_first());
    }
}

/// The order of texts is a total order.
pub proof fn lemma_text_order_total()
    ensures
        total_ordering(text_order()),
{
    let r = text_order();
    assert forall|a: Seq<char>| #[trigger] r(a, a) by {
        lemma_lex_reflexive(a);
    }
    assert forall|a: Seq<char>, b: Seq<char>| #[trigger] r(a, b) && #[trigger] r(b, a) implies a == b by {
        lemma_lex_antisymmetric(a, b);
    }
    assert forall|a: Seq<char>, b: Seq<char>, c: Seq<char>| #[trigger] r(a, b) && #[trigger] r(b, c) implies r(
        a,
        c,
    ) by {
        lemma_lex_transitive(a, b, c);
    }
    assert forall|a: Seq<char>, b: Seq<char>| #[trigger] r(a, b) || #[trigger] r(b, a) by {
        lemma_lex_total(a, b);
    }
}

/// Compares two texts in the order of `lex_le`.
fn text_le(a: &Vec<char>, b: &Vec<char>) -> (r: bool)
    ensures
        r == lex_le(a@, b@),
{
    let mut i: usize = 0;
    assert(a@.subrange(0, a.len() as int) =~= a@);
    assert(b@.subrange(0, b.len() as int) =~= b@);
    while i < a.len() && i < b.len() && a[i] == b[i]
        invariant
            i <= a.len(),
            i <= b.len(),
            lex_le(a@, b@) == lex_le(a@.subrange(i as int, a.len() as int), b@.subrange(i as int, b.len() as int)),
        decreases a.len() - i,
    {
        let ghost s = a@.subrange(i as int, a.len() as int);
        let ghost t = b@.subrange(i as int, b.len() as int);
        assert(s[0] == a@[i as int]);
        assert(t[0] == b@[i as int]);
        assert(s.drop_first() =~= a@.subrange(i + 1, a.len() as int));
        assert(t.drop_first() =~= b@.subrange(i + 1, b.len() as int));
        i += 1;
    }
    let ghost s = a@.subrange(i as int, a.len() as int);
    let ghost t = b@.subrange(i as int, b.len() as int);
    if i == a.len() {
        true
    } else if i == b.len() {
        false
    } else {
        assert(s[0] == a@[i as int]);
        assert(t[0] == b@[i as int]);
        a[i] < b[i]
    }
}

/// Sorts texts in the order of `lex_le`.
fn sort_texts(v: Vec<String>) -> (r: Vec<String>)
    ensures
        views(r@).to_multiset() == views(v@).to_multiset(),
        sorted_by(views(r@), text_order()),
{
    proof {
        lemma_text_order_total();
    }
    let mut sorted: Vec<String> = Vec::new();
    let mut i: usize = 0;
    assert(views(v@.subrange(0, 0)) =~= views(sorted@));
    while i < v.len()
        invariant
            i <= v.len(),
            total_ordering(text_order()),
            sorted_by(views(sorted@), text_order()),
            views(sorted@).to_multiset() == views(v@.subrange(0, i as int)).to_multiset(),
        decreases v.len() - i,
    {
        let x = v[i].clone();
        let xc = to_chars(x.as_str());
        let ghost s = views(sorted@);
        let mut p: usize = 0;
        while p < sorted.len() && text_le(&to_chars(sorted[p].as_str()), &xc)
            invariant
                p <= sorted.len(),
                s == views(sorted@),
                xc@ == x@,
                forall|j: int| 0 <= j < p ==> lex_le(#[trigger] s[j], x@),
            decreases sorted.len() - p,
        {
            p += 1;
        }
        proof {
            if p < sorted.len() {
                assert(!lex_le(s[p as int], x@));
                lemma_lex_total(s[p as int], x@);
            }
        }
        let ghost t = s.insert(p as int, x@);
        sorted.insert(p, x);
        assert(views(sorted@) =~= t);
        proof {
            let r = text_order();
            assert forall|a: int, b: int| 0 <= a < b < t.len() implies #[trigger] r(t[a], t[b]) by {
                if b < p {
                    assert(r(s[a], s[b]));
                } else if b == p {
                    assert(lex_le(s[a], x@));
                } else if a < p {
                    assert(lex_le(s[a], x@));
                    assert(lex_le(x@, s[p as int]));
                    if b - 1 > p {
                        assert(r(s[p as int], s[b - 1]));
                    } else {
                        lemma_lex_reflexive(s[p as int]);
                    }
                    lemma_lex_transitive(x@, s[p as int], s[b - 1]);
                    lemma_lex_transitive(s[a], x@, s[b - 1]);
                } else if a == p {
                    assert(lex_le(x@, s[p as int]));
                    if b - 1 > p {
                        assert(r(s[p as int], s[b - 1]));
                    } else {
                        lemma_lex_reflexive(s[p as int]);
                    }
                    lemma_lex_transitive(x@, s[p as int], s[b - 1]);
                } else {
                    assert(r(s[a - 1], s[b - 1]));
                }
            }
            assert(views(v@.subrange(0, i + 1)) =~= views(v@.subrange(0, i as int)).push(x@));
            vstd::seq_lib::to_multiset_insert(s, p as int, x@);
            vstd::seq_lib::to_multiset_build(views(v@.subrange(0, i as int)), x@);
            assert(t.to_multiset() == s.to_multiset().insert(x@));
            assert(views(v@.subrange(0, i as int)).push(x@).to_multiset() == views(v@.subrange(0, i as int)).to_multiset().insert(x@));
        }
        i += 1;
    }
    assert(v@.subrange(0, i as int) =~= v@);
    sorted
}

/// The text that stands for one provided parameter in a cache key:
/// `name=value`, the value by its JSON text.
pub open spec fn entry_text(e: (String, ParamValue)) -> Seq<char> {
    e.0@ + "="@ + param_json(e.1)
}

/// The texts of the provided parameters.
pub open spec fn entry_texts(provided: Seq<(String, ParamValue)>) -> Seq<Seq<char>> {
    provided.map_values(|e: (String, ParamValue)| entry_text(e))
}

/// The key of an environment made from a template with these parameters:
/// the template's identifier, `:`, then the parameters' texts in sorted
/// order joined by `,`.
pub open spec fn cache_key_text(template_id: Seq<char>, provided: Seq<(String, ParamValue)>) -> Seq<char> {
    template_id + ":"@ + joined(entry_texts(provided).sort_by(text_order()), ","@)
}

/// The cache key of an environment made from a template with these
/// parameters, as `cache_key_text` describes.
pub fn generate_cache_key(template_id: &str, provided: &Vec<(String, ParamValue)>) -> (k: String)
    ensures
        k@ == cache_key_text(template_id@, provided@),
{
    let mut entries: Vec<String> = Vec::new();
    let mut i: usize = 0;
    while i < provided.len()
        invariant
            i <= provided.len(),
            views(entries@) == entry_texts(provided@).subrange(0, i as int),
        decreases provided.len() - i,
    {
        let mut e = provided[i].0.clone();
        e.append("=");
        let v = param_json_text(&provided[i].1);
        e.append(v.as_str());
        assert(e@ == entry_text(provided@[i as int]));
        let ghost before = entries@;
        entries.push(e);
        assert(views(entries@) =~= views(before).push(entry_text(provided@[i as int])));
        assert(entry_texts(provided@).subrange(0, i + 1) =~= entry_texts(provided@).subrange(0, i as int).push(entry_text(provided@[i as int])));
        i += 1;
    }
    assert(entry_texts(provided@).subrange(0, i as int) =~= entry_texts(provided@));
    let sorted = sort_texts(entries);
    proof {
        lemma_text_order_total();
        let es = entry_texts(provided@);
        es.lemma_sort_by_ensures(text_order());
        vstd::seq_lib::lemma_sorted_unique(views(sorted@), es.sort_by(text_order()), text_order());
    }
    let mut k = template_id.to_owned();
    k.append(":");
    let joined_text = join_strings(&sorted, ",");
    k.append(joined_text.as_str());
    k
}

/// Law: the cache key does not depend on the order in which the parameters
/// come: parameters whose texts are the same, in any order, give the same
/// key.
pub proof fn lemma_cache_key_order_free(
    template_id: Seq<char>,
    a: Seq<(String, ParamValue)>,
    b: Seq<(String, ParamValue)>,
)
    requires
        entry_texts(a).to_multiset() == entry_texts(b).to_multiset(),
    ensures
        cache_key_text(template_id, a) == cache_key_text(template_id, b),
{
    lemma_text_order_total();
    entry_texts(a).lemma_sort_by_ensures(text_order());
    entry_texts(b).lemma_sort_by_ensures(text_order());
    vstd::seq_lib::lemma_sorted_unique(
        entry_texts(a).sort_by(text_order()),
        entry_texts(b).sort_by(text_order()),
        text_order(),
    );
}

/// How long an environment made from a template stays cached, in
/// milliseconds: one hour.
pub const CACHE_LIFETIME_MS: i64 = 3_600_000;

/// A cached environment has expired when its expiry time, if it has one,
/// is not after `now`. Times are milliseconds on one clock.
pub open spec fn expired_at(expires_at: Option<i64>, now: i64) -> bool {
    match expires_at {
        Some(e) => e <= now,
        None => false,
    }
}

/// Has a cached environment expired, as `expired_at` describes?
pub fn is_expired(expires_at: Option<i64>, now: i64) -> (b: bool)
    ensures
        b == expired_at(expires_at, now),
{
    match expires_at {
        Some(e) => e <= now,
        None => false,
    }
}

/// Can a cached environment still be used: it has no expiry time, or its
/// expiry time is after `now`.
pub fn is_still_valid(expires_at: Option<i64>, now: i64) -> (b: bool)
    ensures
        b == match expires_at {
            Some(e) => e > now,
            None => true,
        },
{
    match expires_at {
        Some(e) => e > now,
        None => true,
    }
}

/// Law: a cached environment can still be used exactly when it has not
/// expired, so the lookup and the cleanup never disagree.
pub proof fn lemma_valid_iff_not_expired(expires_at: Option<i64>, now: i64)
    ensures
        (match expires_at {
            Some(e) => e > now,
            None => true,
        }) == !expired_at(expires_at, now),
{
}

/// The expiry time of an environment cached at `now`: an hour later, or
/// `None` when that time cannot be written.
pub fn cache_expiry(now: i64) -> (e: Option<i64>)
    ensures
        e == if now + CACHE_LIFETIME_MS <= i64::MAX {
            Some((now + CACHE_LIFETIME_MS) as i64)
        } else {
            None::<i64>
        },
{
    now.checked_add(CACHE_LIFETIME_MS)
}

/// The positions of the expired entries, in order.
pub open spec fn expired_positions_of(expiries: Seq<Option<i64>>, now: i64) -> Seq<usize>
    decreases expiries.len(),
{
    if expiries.len() == 0 {
        Seq::empty()
    } else {
        let rest = expired_positions_of(expiries.drop_last(), now);
        if expired_at(expiries.last(), now) {
            rest.push((expiries.len() - 1) as usize)
        } else {
            rest
        }
    }
}

/// The positions of the cached environments that have expired, in order;
/// the cleanup removes and tears down these.
pub fn expired_positions(expiries: &Vec<Option<i64>>, now: i64) -> (r: Vec<usize>)
    ensures
        r@ == expired_positions_of(expiries@, now),
{
    let mut r: Vec<usize> = Vec::new();
    let mut i: usize = 0;
    while i < expiries.len()
        invariant
            i <= expiries.len(),
            r@ == expired_positions_of(expiries@.subrange(0, i as int), now),
        decreases expiries.len() - i,
    {
        assert(expiries@.subrange(0, i + 1).drop_last() =~= expiries@.subrange(0, i as int));
        if is_expired(expiries[i], now) {
            r.push(i);
        }
        i += 1;
    }
    assert(expiries@.subrange(0, i as int) =~= expiries@);
    r
}

/// How many cached environments there are, how many can still be used and
/// how many have expired.
#[derive(Debug, Clone, Copy)]
pub struct CacheCounts {
    pub total: usize,
    pub active: usize,
    pub expired: usize,
}

/// Counts the cached environments: all of them, the expired ones, and the
/// others, which are active.
pub fn cache_counts(expiries: &Vec<Option<i64>>, now: i64) -> (c: CacheCounts)
    ensures
        c.total == expiries.len(),
        c.expired == expired_positions_of(expiries@, now).len(),
        c.active == c.total - c.expired,
{
    let positions = expired_positions(expiries, now);
    proof {
        lemma_expired_positions_len(expiries@, now);
    }
    CacheCounts { total: expiries.len(), active: expiries.len() - positions.len(), expired: positions.len() }
}

proof fn lemma_expired_positions_len(expiries: Seq<Option<i64>>, now: i64)
    ensures
        expired_positions_of(expiries, now).len() <= expiries.len(),
    decreases expiries.len(),
{
    if expiries.len() > 0 {
        lemma_expired_positions_len(expiries.drop_last(), now);
    }
}

/// The error for an environment that is not in the cache.
pub fn missing_environment_error(environment_id: &str) -> (e: TestHarnessError)
    ensures
        e matches TestHarnessError::EnvironmentError(m) && m@ == "Environment "@ + environment_id@ + " not found in cache"@,
{
    let mut m = "Environment ".to_owned();
    m.append(environment_id);
    m.append(" not found in cache");
    TestHarnessError::EnvironmentError(m)
}

/// Where a health check stands.
#[derive(Debug, Clone, Copy, PartialEq, Eq, Structural)]
pub enum HealthStage {
    RunningHealthHook,
    CheckingServices,
    Healing,
    TearingDown,
    SettingUp,
    Done,
}

/// What the runner does next in a health check.
#[derive(Debug)]
pub enum HealthAction {
    /// Run the template's health-check hook.
    RunHealthHook(String),
    /// Ask whether the service of this name is healthy.
    CheckService(String),
    /// Run the template's self-healing hook.
    RunHealingHook(String),
    /// Tear the environment down, to set it up again.
    TearDown,
    /// Set the environment up again.
    SetUp,
    /// The check is over: whether the environment is healthy now.
    Done(bool),
}

/// What follows a verdict on the environment's health: a healthy
/// environment ends the check; an unhealthy one is healed by the template's
/// self-healing hook, or else by tearing it down and setting it up again.
pub open spec fn after_verdict(healing: Option<String>, healthy: bool, a: HealthAction, stage: HealthStage) -> bool {
    if healthy {
        a == HealthAction::Done(true) && stage == HealthStage::Done
    } else {
        match healing {
            Some(h) => a == HealthAction::RunHealingHook(h) && stage == HealthStage::Healing,
            None => a == HealthAction::TearDown && stage == HealthStage::TearingDown,
        }
    }
}

/// A health check of a cached environment, with self-healing.
pub struct HealthCheck {
    healing_hook: Option<String>,
    services: Vec<String>,
    checked: usize,
    stage: HealthStage,
}

impl HealthCheck {
    /// The step the check is at.
    pub closed spec fn stage(&self) -> HealthStage {
        self.stage
    }

    /// The template's self-healing hook.
    pub closed spec fn healing(&self) -> Option<String> {
        self.healing_hook
    }

    /// The environment's services.
    pub closed spec fn service_list(&self) -> Seq<String> {
        self.services@
    }

    /// How many services have been found healthy so far.
    pub closed spec fn checked(&self) -> nat {
        self.checked as nat
    }

    /// The check is consistent.
    pub closed spec fn well_formed(&self) -> bool {
        self.stage == HealthStage::CheckingServices ==> self.checked < self.services.len()
    }

    fn verdict(&mut self, healthy: bool) -> (a: HealthAction)
        ensures
            after_verdict(old(self).healing(), healthy, a, final(self).stage()),
            final(self).healing() == old(self).healing(),
            final(self).service_list() == old(self).service_list(),
            final(self).checked() == old(self).checked(),
    {
        if healthy {
            self.stage = HealthStage::Done;
            HealthAction::Done(true)
        } else {
            match &self.healing_hook {
                Some(h) => {
                    let a = HealthAction::RunHealingHook(h.clone());
                    self.stage = HealthStage::Healing;
                    a
                },
                None => {
                    self.stage = HealthStage::TearingDown;
                    HealthAction::TearDown
                },
            }
        }
    }

    /// Starts a check: with a health-check hook the hook decides; without
    /// one the services are asked in turn, and an environment without
    /// services is healthy.
    pub fn start(health_hook: Option<String>, healing_hook: Option<String>, services: Vec<String>) -> (out: (
        HealthCheck,
        HealthAction,
    ))
        ensures
            out.0.well_formed(),
            out.0.healing() == healing_hook,
            out.0.service_list() == services@,
            out.0.checked() == 0,
            match health_hook {
                Some(h) => out.1 == HealthAction::RunHealthHook(h) && out.0.stage() == HealthStage::RunningHealthHook,
                None => if services.len() == 0 {
                    after_verdict(healing_hook, true, out.1, out.0.stage())
                } else {
                    out.1 == HealthAction::CheckService(services@[0]) && out.0.stage() == HealthStage::CheckingServices
                },
            },
    {
        let mut c = HealthCheck { healing_hook, services, checked: 0, stage: HealthStage::RunningHealthHook };
        match health_hook {
            Some(h) => (c, HealthAction::RunHealthHook(h)),
            None => {
                if c.services.len() == 0 {
                    let a = c.verdict(true);
                    (c, a)
                } else {
                    c.stage = HealthStage::CheckingServices;
                    let first = c.services[0].clone();
                    (c, HealthAction::CheckService(first))
                }
            },
        }
    }

    /// After the health-check hook: it succeeded exactly when the
    /// environment is healthy.
    pub fn after_health_hook(&mut self, succeeded: bool) -> (a: HealthAction)
        requires
            old(self).stage() == HealthStage::RunningHealthHook,
        ensures
            final(self).well_formed(),
            after_verdict(old(self).healing(), succeeded, a, final(self).stage()),
            final(self).healing() == old(self).healing(),
    {
        self.verdict(succeeded)
    }

    /// After asking about a service: a healthy one moves on to the next
    /// service, and the environment is healthy once all are; an unhealthy
    /// service, or a failed question, makes it unhealthy at once.
    pub fn after_service_check(&mut self, healthy: Result<bool, TestHarnessError>) -> (a: HealthAction)
        requires
            old(self).well_formed(),
            old(self).stage() == HealthStage::CheckingServices,
        ensures
            final(self).well_formed(),
            final(self).healing() == old(self).healing(),
            final(self).service_list() == old(self).service_list(),
            match healthy {
                Ok(true) => if old(self).checked() + 1 < old(self).service_list().len() {
                    &&& a == HealthAction::CheckService(old(self).service_list()[old(self).checked() + 1int])
                    &&& final(self).stage() == HealthStage::CheckingServices
                    &&& final(self).checked() == old(self).checked() + 1
                } else {
                    after_verdict(old(self).healing(), true, a, final(self).stage())
                },
                _ => after_verdict(old(self).healing(), false, a, final(self).stage()),
            },
    {
        match healthy {
            Ok(true) => {
                if self.checked + 1 < self.services.len() {
                    self.checked = self.checked + 1;
                    let next = self.services[self.checked].clone();
                    HealthAction::CheckService(next)
                } else {
                    self.verdict(true)
                }
            },
            _ => self.verdict(false),
        }
    }

    /// After the self-healing hook: the environment is healthy exactly when
    /// the hook succeeded.
    pub fn after_healing_hook(&mut self, succeeded: bool) -> (a: HealthAction)
        requires
            old(self).stage() == HealthStage::Healing,
        ensures
            final(self).well_formed(),
            final(self).stage() == HealthStage::Done,
            a == HealthAction::Done(succeeded),
    {
        self.stage = HealthStage::Done;
        HealthAction::Done(succeeded)
    }

    /// After tearing the environment down: a failure ends the check
    /// unhealthy; otherwise the environment is set up again.
    pub fn after_teardown(&mut self, succeeded: bool) -> (a: HealthAction)
        requires
            old(self).stage() == HealthStage::TearingDown,
        ensures
            final(self).well_formed(),
            succeeded ==> a == HealthAction::SetUp && final(self).stage() == HealthStage::SettingUp,
            !succeeded ==> a == HealthAction::Done(false) && final(self).stage() == HealthStage::Done,
    {
        if succeeded {
            self.stage = HealthStage::SettingUp;
            HealthAction::SetUp
        } else {
            self.stage = HealthStage::Done;
            HealthAction::Done(false)
        }
    }

    /// After setting the environment up again: it is healthy exactly when
    /// the setup succeeded.
    pub fn after_setup(&mut self, succeeded: bool) -> (a: HealthAction)
        requires
            old(self).stage() == HealthStage::SettingUp,
        ensures
            final(self).well_formed(),
            final(self).stage() == HealthStage::Done,
            a == HealthAction::Done(succeeded),
    {
        self.stage = HealthStage::Done;
        HealthAction::Done(succeeded)
    }
}

} // verus!
