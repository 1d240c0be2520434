//! The steps of provisioning an environment from a template: reuse a
//! cached environment that is still valid, else check the parameters, apply
//! them to the template's configuration, create and set up the environment
//! around its provisioning hooks, and cache it for an hour.

use vstd::prelude::*;
use crate::environment::{
    apply_parameters_to_config, apply_params, fields_of, same_fixed_fields, uuid_v4_text, EnvironmentConfig, ParamValue,
};
use crate::environment_template::EnvironmentTemplate;
use crate::model::TestHarnessError;
use crate::templates::{
    cache_expiry, cache_key_text, expired_at, first_parameter_error, generate_cache_key, is_expired,
    validate_parameters, CACHE_LIFETIME_MS,
};

verus! {

/// Where a provisioning stands.
#[derive(Debug, Clone, Copy, PartialEq, Eq, Structural)]
pub enum ProvisionStage {
    LookingUpCache,
    RemovingExpired,
    LookingUpTemplate,
    Creating,
    PreProvision,
    SettingUp,
    PostProvision,
    Done,
}

/// What the runner does next in a provisioning.
pub enum ProvisionAction {
    /// Look up the environment cached under this key.
    LookUpCache(String),
    /// Hand out the environment cached under this key, marked as used at
    /// this time; provisioning is over.
    ReuseCached { key: String, used_at: i64 },
    /// Remove the expired environment cached under this key.
    RemoveExpired(String),
    /// Look up the template of this identifier.
    LookUpTemplate(String),
    /// Create an environment of this configuration.
    Create(EnvironmentConfig),
    /// Run this pre-provision hook in the environment.
    PreProvisionHook(String),
    /// Run this post-provision hook in the environment.
    PostProvisionHook(String),
    /// Set the environment up.
    SetUp,
    /// Cache the environment under this key, made from this template at
    /// this time and expiring at this one (never, for `None`), and hand it
    /// out; provisioning is over.
    Cache { key: String, template_id: String, created_at: i64, expires_at: Option<i64> },
    /// Provisioning failed with this error.
    Fail(TestHarnessError),
}

/// The expiry of an environment cached at `now`: an hour later, where that
/// time can be written.
pub open spec fn expiry_after(now: i64) -> Option<i64> {
    if now + CACHE_LIFETIME_MS <= i64::MAX {
        Some((now + CACHE_LIFETIME_MS) as i64)
    } else {
        None
    }
}

/// Provisioning an environment from a template.
pub struct TemplateProvisioning {
    template_id: String,
    key: String,
    pre_provision: Option<String>,
    post_provision: Option<String>,
    stage: ProvisionStage,
}

impl TemplateProvisioning {
    /// The step the provisioning is at.
    pub closed spec fn stage(&self) -> ProvisionStage {
        self.stage
    }

    /// The template asked for.
    pub closed spec fn template(&self) -> Seq<char> {
        self.template_id@
    }

    /// The cache key of the template and parameters.
    pub closed spec fn key(&self) -> Seq<char> {
        self.key@
    }

    /// The template's pre-provision hook, once the template is known.
    pub closed spec fn pre_hook(&self) -> Option<String> {
        self.pre_provision
    }

    /// The template's post-provision hook, once the template is known.
    pub closed spec fn post_hook(&self) -> Option<String> {
        self.post_provision
    }

    /// Starts provisioning from the template `template_id` with these
    /// parameters: first the cache is asked under their key.
    pub fn start(template_id: String, provided: &Vec<(String, ParamValue)>) -> (out: (TemplateProvisioning, ProvisionAction))
        ensures
            out.0.template() == template_id@,
            out.0.key() == cache_key_text(template_id@, provided@),
            out.0.stage() == ProvisionStage::LookingUpCache,
            out.1 matches ProvisionAction::LookUpCache(k) && k@ == out.0.key(),
    {
        let key = generate_cache_key(template_id.as_str(), provided);
        let a = ProvisionAction::LookUpCache(key.clone());
        (TemplateProvisioning { template_id, key, pre_provision: None, post_provision: None, stage: ProvisionStage::LookingUpCache }, a)
    }

    fn fail(&mut self, e: TestHarnessError) -> (a: ProvisionAction)
        ensures
            a == ProvisionAction::Fail(e),
            final(self).stage() == ProvisionStage::Done,
            final(self).template() == old(self).template(),
            final(self).key() == old(self).key(),
            final(self).post_hook() == old(self).post_hook(),
    {
        self.stage = ProvisionStage::Done;
        ProvisionAction::Fail(e)
    }

    /// After the cache lookup, given the expiry of the cached environment
    /// if there is one: a valid one is reused, an expired one removed;
    /// without one the template is looked up.
    pub fn after_cache_lookup(&mut self, cached: Option<Option<i64>>, now: i64) -> (a: ProvisionAction)
        requires
            old(self).stage() == ProvisionStage::LookingUpCache,
        ensures
            final(self).template() == old(self).template(),
            final(self).key() == old(self).key(),
            match cached {
                None => a matches ProvisionAction::LookUpTemplate(t) && t@ == old(self).template()
                    && final(self).stage() == ProvisionStage::LookingUpTemplate,
                Some(expires_at) => if expired_at(expires_at, now) {
                    a matches ProvisionAction::RemoveExpired(k) && k@ == old(self).key()
                        && final(self).stage() == ProvisionStage::RemovingExpired
                } else {
                    a matches ProvisionAction::ReuseCached { key, used_at } && key@ == old(self).key() && used_at == now
                        && final(self).stage() == ProvisionStage::Done
                },
            },
    {
        match cached {
            None => {
                self.stage = ProvisionStage::LookingUpTemplate;
                ProvisionAction::LookUpTemplate(self.template_id.clone())
            },
            Some(expires_at) => {
                if is_expired(expires_at, now) {
                    self.stage = ProvisionStage::RemovingExpired;
                    ProvisionAction::RemoveExpired(self.key.clone())
                } else {
                    self.stage = ProvisionStage::Done;
                    ProvisionAction::ReuseCached { key: self.key.clone(), used_at: now }
                }
            },
        }
    }

    /// After removing an expired environment: the template is looked up.
    pub fn after_removal(&mut self) -> (a: ProvisionAction)
        requires
            old(self).stage() == ProvisionStage::RemovingExpired,
        ensures
            final(self).template() == old(self).template(),
            final(self).key() == old(self).key(),
            final(self).stage() == ProvisionStage::LookingUpTemplate,
            a matches ProvisionAction::LookUpTemplate(t) && t@ == old(self).template(),
    {
        self.stage = ProvisionStage::LookingUpTemplate;
        ProvisionAction::LookUpTemplate(self.template_id.clone())
    }

    /// After the template lookup: a missing template is an error; else the
    /// parameters are checked (`numeric[i]` is the failed numeric bound of
    /// parameter `i`, if any) and applied to the template's configuration,
    /// and the environment of the result is created.
    pub fn after_template_lookup(
        &mut self,
        template: Option<EnvironmentTemplate>,
        provided: &Vec<(String, ParamValue)>,
        numeric: &Vec<Option<String>>,
    ) -> (a: ProvisionAction)
        requires
            old(self).stage() == ProvisionStage::LookingUpTemplate,
            template matches Some(t) ==> numeric.len() == t.parameters.len(),
        ensures
            final(self).template() == old(self).template(),
            final(self).key() == old(self).key(),
            match template {
                None => a matches ProvisionAction::Fail(TestHarnessError::ConfigurationError(m))
                    && m@ == "Template "@ + old(self).template() + " not found"@
                    && final(self).stage() == ProvisionStage::Done,
                Some(t) => match first_parameter_error(t.parameters@, provided@, numeric@) {
                    Some(m) => a matches ProvisionAction::Fail(TestHarnessError::ConfigurationError(x)) && x@ == m
                        && final(self).stage() == ProvisionStage::Done,
                    None => match apply_params(fields_of(t.base_config), t.parameters@, provided@) {
                        Err(m) => a matches ProvisionAction::Fail(TestHarnessError::ConfigurationError(x)) && x@ == m
                            && final(self).stage() == ProvisionStage::Done,
                        Ok(f) => {
                            &&& a matches ProvisionAction::Create(c) && fields_of(c) == f && same_fixed_fields(
                                c,
                                t.base_config,
                            ) && (t.base_config.id@.len() > 0 ==> c.id@ == t.base_config.id@)
                                && (t.base_config.id@.len() == 0 ==> uuid_v4_text(c.id@))
                            &&& final(self).stage() == ProvisionStage::Creating
                            &&& final(self).pre_hook() == t.hooks.pre_provision
                            &&& final(self).post_hook() == t.hooks.post_provision
                        },
                    },
                },
            },
    {
        match template {
            None => {
                let mut m = "Template ".to_owned();
                m.append(self.template_id.as_str());
                m.append(" not found");
                self.fail(TestHarnessError::ConfigurationError(m))
            },
            Some(t) => {
                match validate_parameters(&t.parameters, provided, numeric) {
                    Err(e) => self.fail(e),
                    Ok(()) => {
                        let pre = t.hooks.pre_provision;
                        let post = t.hooks.post_provision;
                        match apply_parameters_to_config(t.base_config, &t.parameters, provided) {
                            Err(e) => self.fail(e),
                            Ok(c) => {
                                self.pre_provision = pre;
                                self.post_provision = post;
                                self.stage = ProvisionStage::Creating;
                                ProvisionAction::Create(c)
                            },
                        }
                    },
                }
            },
        }
    }

    /// After creating the environment: a failure ends provisioning; else
    /// the pre-provision hook runs, or without one the environment is set
    /// up.
    pub fn after_create(&mut self, created: Result<(), TestHarnessError>) -> (a: ProvisionAction)
        requires
            old(self).stage() == ProvisionStage::Creating,
        ensures
            final(self).template() == old(self).template(),
            final(self).key() == old(self).key(),
            final(self).post_hook() == old(self).post_hook(),
            match created {
                Err(e) => a == ProvisionAction::Fail(e) && final(self).stage() == ProvisionStage::Done,
                Ok(()) => match old(self).pre_hook() {
                    Some(h) => a == ProvisionAction::PreProvisionHook(h) && final(self).stage() == ProvisionStage::PreProvision,
                    None => a == ProvisionAction::SetUp && final(self).stage() == ProvisionStage::SettingUp,
                },
            },
    {
        match created {
            Err(e) => self.fail(e),
            Ok(()) => match &self.pre_provision {
                Some(h) => {
                    let a = ProvisionAction::PreProvisionHook(h.clone());
                    self.stage = ProvisionStage::PreProvision;
                    a
                },
                None => {
                    self.stage = ProvisionStage::SettingUp;
                    ProvisionAction::SetUp
                },
            },
        }
    }

    /// After the pre-provision hook: a failure ends provisioning; else the
    /// environment is set up.
    pub fn after_pre_provision(&mut self, ran: Result<(), TestHarnessError>) -> (a: ProvisionAction)
        requires
            old(self).stage() == ProvisionStage::PreProvision,
        ensures
            final(self).template() == old(self).template(),
            final(self).key() == old(self).key(),
            final(self).post_hook() == old(self).post_hook(),
            match ran {
                Err(e) => a == ProvisionAction::Fail(e) && final(self).stage() == ProvisionStage::Done,
                Ok(()) => a == ProvisionAction::SetUp && final(self).stage() == ProvisionStage::SettingUp,
            },
    {
        match ran {
            Err(e) => self.fail(e),
            Ok(()) => {
                self.stage = ProvisionStage::SettingUp;
                ProvisionAction::SetUp
            },
        }
    }

    fn cache(&mut self, now: i64) -> (a: ProvisionAction)
        ensures
            a matches ProvisionAction::Cache { key, template_id, created_at, expires_at } && key@ == old(self).key()
                && template_id@ == old(self).template() && created_at == now && expires_at == expiry_after(now),
            final(self).stage() == ProvisionStage::Done,
            final(self).template() == old(self).template(),
            final(self).key() == old(self).key(),
    {
        self.stage = ProvisionStage::Done;
        ProvisionAction::Cache {
            key: self.key.clone(),
            template_id: self.template_id.clone(),
            created_at: now,
            expires_at: cache_expiry(now),
        }
    }

    /// After setting the environment up: a failure ends provisioning; else
    /// the post-provision hook runs, or without one the environment is
    /// cached at `now`.
    pub fn after_setup(&mut self, set_up: Result<(), TestHarnessError>, now: i64) -> (a: ProvisionAction)
        requires
            old(self).stage() == ProvisionStage::SettingUp,
        ensures
            final(self).template() == old(self).template(),
            final(self).key() == old(self).key(),
            match set_up {
                Err(e) => a == ProvisionAction::Fail(e) && final(self).stage() == ProvisionStage::Done,
                Ok(()) => match old(self).post_hook() {
                    Some(h) => a == ProvisionAction::PostProvisionHook(h) && final(self).stage() == ProvisionStage::PostProvision,
                    None => a matches ProvisionAction::Cache { key, template_id, created_at, expires_at }
                        && key@ == old(self).key() && template_id@ == old(self).template() && created_at == now
                        && expires_at == expiry_after(now) && final(self).stage() == ProvisionStage::Done,
                },
            },
    {
        match set_up {
            Err(e) => self.fail(e),
            Ok(()) => match &self.post_provision {
                Some(h) => {
                    let a = ProvisionAction::PostProvisionHook(h.clone());
                    self.stage = ProvisionStage::PostProvision;
                    a
                },
                None => self.cache(now),
            },
        }
    }

    /// After the post-provision hook: a failure ends provisioning; else the
    /// environment is cached at `now`.
    pub fn after_post_provision(&mut self, ran: Result<(), TestHarnessError>, now: i64) -> (a: ProvisionAction)
        requires
            old(self).stage() == ProvisionStage::PostProvision,
        ensures
            final(self).template() == old(self).template(),
            final(self).key() == old(self).key(),
            final(self).stage() == ProvisionStage::Done,
            match ran {
                Err(e) => a == ProvisionAction::Fail(e),
                Ok(()) => a matches ProvisionAction::Cache { key, template_id, created_at, expires_at }
                    && key@ == old(self).key() && template_id@ == old(self).template() && created_at == now
                    && expires_at == expiry_after(now),
            },
    {
        match ran {
            Err(e) => self.fail(e),
            Ok(()) => self.cache(now),
        }
    }
}

/// One step of tearing down an expired cached environment.
#[derive(Debug)]
pub enum TeardownStep {
    /// Run this hook in the environment; its failure is ignored.
    RunHook(String),
    /// Tear the environment down; a failure is ignored.
    TearDown,
}

/// The steps that tear down an expired cached environment, given the hooks
/// of its template if the template is still known: the pre-teardown hook,
/// the teardown, then the post-teardown hook.
pub fn teardown_steps(pre_teardown: Option<String>, post_teardown: Option<String>) -> (s: Vec<TeardownStep>)
    ensures
        s@ == match (pre_teardown, post_teardown) {
            (Some(a), Some(b)) => seq![TeardownStep::RunHook(a), TeardownStep::TearDown, TeardownStep::RunHook(b)],
            (Some(a), None) => seq![TeardownStep::RunHook(a), TeardownStep::TearDown],
            (None, Some(b)) => seq![TeardownStep::TearDown, TeardownStep::RunHook(b)],
            (None, None) => seq![TeardownStep::TearDown],
        },
{
    let mut s: Vec<TeardownStep> = Vec::new();
    let ghost pre = pre_teardown;
    let ghost post = post_teardown;
    if let Some(h) = pre_teardown {
        s.push(TeardownStep::RunHook(h));
    }
    s.push(TeardownStep::TearDown);
    if let Some(h) = post_teardown {
        s.push(TeardownStep::RunHook(h));
    }
    proof {
        match (pre, post) {
            (Some(a), Some(b)) => assert(s@ =~= seq![TeardownStep::RunHook(a), TeardownStep::TearDown, TeardownStep::RunHook(b)]),
            (Some(a), None) => assert(s@ =~= seq![TeardownStep::RunHook(a), TeardownStep::TearDown]),
            (None, Some(b)) => assert(s@ =~= seq![TeardownStep::TearDown, TeardownStep::RunHook(b)]),
            (None, None) => assert(s@ =~= seq![TeardownStep::TearDown]),
        }
    }
    s
}

} // verus!
