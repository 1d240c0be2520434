//! Environment templates: a base configuration with parameters, variables,
//! hooks and metadata, from which the template manager provisions
//! environments.

use vstd::prelude::*;
use crate::environment::{new_uuid, param_json, param_json_text, uuid_v4_text, EnvironmentConfig, ParamValue, TemplateHooks, TemplateParameter};
use crate::kv::{eq_str, StrMap};
use crate::model::TestHarnessError;

verus! {

/// The current time, in milliseconds since the Unix epoch, from
/// `chrono::Utc::now` and `DateTime::timestamp_millis`. What time it is
/// depends on the clock; that it is not before the epoch holds of every
/// result (`Utc::now` panics on a clock set before 1970).
#[verifier::external_body]
pub(crate) fn utc_now_ms() -> (t: i64)
    ensures
        t >= 0,
{
    chrono::Utc::now().timestamp_millis()
}

/// A template of a test environment.
pub struct EnvironmentTemplate {
    pub id: String,
    pub name: String,
    pub description: Option<String>,
    pub base_config: EnvironmentConfig,
    pub variables: StrMap,
    /// The parameters, at most one of each name.
    pub parameters: Vec<TemplateParameter>,
    pub hooks: TemplateHooks,
    /// Metadata, each value by the canonical text of its JSON value.
    pub metadata: StrMap,
    pub tags: Vec<String>,
    pub version: String,
    /// Milliseconds since the Unix epoch.
    pub created_at: i64,
    pub updated_at: i64,
}

/// No two parameters have the same name.
pub open spec fn distinct_names(ps: Seq<TemplateParameter>) -> bool {
    forall|i: int, j: int| 0 <= i < j < ps.len() ==> ps[i].name@ != ps[j].name@
}

/// Some parameter has this name.
pub open spec fn has_name(ps: Seq<TemplateParameter>, name: Seq<char>) -> bool {
    exists|i: int| 0 <= i < ps.len() && ps[i].name@ == name
}

/// The parameters with `p` added: it replaces the parameter of its name,
/// in its place, or else comes last.
pub open spec fn with_param(ps: Seq<TemplateParameter>, p: TemplateParameter) -> Seq<TemplateParameter> {
    if has_name(ps, p.name@) {
        ps.update(choose|i: int| 0 <= i < ps.len() && ps[i].name@ == p.name@, p)
    } else {
        ps.push(p)
    }
}

/// Builds an environment template step by step.
pub struct EnvironmentTemplateBuilder {
    pub id: Option<String>,
    pub name: String,
    pub description: Option<String>,
    pub base_config: EnvironmentConfig,
    pub variables: StrMap,
    pub parameters: Vec<TemplateParameter>,
    pub hooks: TemplateHooks,
    pub metadata: StrMap,
    pub tags: Vec<String>,
    pub version: String,
}

impl EnvironmentTemplateBuilder {
    /// The builder's parameters have distinct names.
    pub open spec fn well_formed(&self) -> bool {
        distinct_names(self.parameters@)
    }

    /// A template of this name on the default configuration, version
    /// `1.0.0`, with nothing else set.
    pub fn new(name: String) -> (b: EnvironmentTemplateBuilder)
        ensures
            b.well_formed(),
            b.id is None,
            b.name == name,
            b.description is None,
            uuid_v4_text(b.base_config.id@),
            b.base_config.name@ == "test-environment"@,
            b.variables@ == Map::<Seq<char>, Seq<char>>::empty(),
            b.parameters@.len() == 0,
            b.hooks.pre_provision is None,
            b.hooks.post_provision is None,
            b.hooks.pre_teardown is None,
            b.hooks.post_teardown is None,
            b.hooks.health_check is None,
            b.hooks.self_healing is None,
            b.metadata@ == Map::<Seq<char>, Seq<char>>::empty(),
            b.tags@.len() == 0,
            b.version@ == "1.0.0"@,
    {
        EnvironmentTemplateBuilder {
            id: None,
            name,
            description: None,
            base_config: EnvironmentConfig::default(),
            variables: StrMap::new(),
            parameters: Vec::new(),
            hooks: TemplateHooks::new(),
            metadata: StrMap::new(),
            tags: Vec::new(),
            version: "1.0.0".to_owned(),
        }
    }

    /// Sets the template's identifier.
    pub fn with_id(self, id: String) -> (b: EnvironmentTemplateBuilder)
        ensures
            b == (EnvironmentTemplateBuilder { id: Some(id), ..self }),
    {
        EnvironmentTemplateBuilder { id: Some(id), ..self }
    }

    /// Sets the template's description.
    pub fn with_description(self, description: String) -> (b: EnvironmentTemplateBuilder)
        ensures
            b == (EnvironmentTemplateBuilder { description: Some(description), ..self }),
    {
        EnvironmentTemplateBuilder { description: Some(description), ..self }
    }

    /// Sets the base configuration.
    pub fn with_base_config(self, config: EnvironmentConfig) -> (b: EnvironmentTemplateBuilder)
        ensures
            b == (EnvironmentTemplateBuilder { base_config: config, ..self }),
    {
        EnvironmentTemplateBuilder { base_config: config, ..self }
    }

    /// Sets a variable.
    pub fn with_variable(self, key: String, value: String) -> (b: EnvironmentTemplateBuilder)
        ensures
            b.variables@ == self.variables@.insert(key@, value@),
            b == (EnvironmentTemplateBuilder { variables: b.variables, ..self }),
    {
        let mut b = self;
        b.variables.insert(key, value);
        b
    }

    /// Adds a parameter; one of the same name is replaced.
    pub fn with_parameter(self, parameter: TemplateParameter) -> (b: EnvironmentTemplateBuilder)
        requires
            self.well_formed(),
        ensures
            b.well_formed(),
            b.parameters@ == with_param(self.parameters@, parameter),
            b == (EnvironmentTemplateBuilder { parameters: b.parameters, ..self }),
    {
        let mut b = self;
        let mut i: usize = 0;
        while i < b.parameters.len()
            invariant
                i <= b.parameters.len(),
                b == self,
                self.well_formed(),
                forall|j: int| 0 <= j < i ==> b.parameters@[j].name@ != parameter.name@,
            decreases b.parameters.len() - i,
        {
            if eq_str(b.parameters[i].name.as_str(), parameter.name.as_str()) {
                let ghost ps = b.parameters@;
                proof {
                    assert(has_name(ps, parameter.name@));
                    let k = choose|k: int| 0 <= k < ps.len() && ps[k].name@ == parameter.name@;
                    if k != i {
                        assert(ps[k].name@ == ps[i as int].name@);
                    }
                    assert(k == i);
                }
                b.parameters[i] = parameter;
                assert(b.parameters@ =~= with_param(ps, parameter));
                assert(distinct_names(b.parameters@)) by {
                    assert forall|x: int, y: int| 0 <= x < y < b.parameters@.len() implies b.parameters@[x].name@
                        != b.parameters@[y].name@ by {
                        assert(ps[x].name@ == b.parameters@[x].name@ || x == i);
                        assert(ps[y].name@ == b.parameters@[y].name@ || y == i);
                    }
                }
                return b;
            }
            i += 1;
        }
        let ghost ps = b.parameters@;
        assert(!has_name(ps, parameter.name@));
        b.parameters.push(parameter);
        b
    }

    /// Sets the pre-provision hook.
    pub fn with_pre_provision_hook(self, hook: String) -> (b: EnvironmentTemplateBuilder)
        ensures
            b == (EnvironmentTemplateBuilder { hooks: TemplateHooks { pre_provision: Some(hook), ..self.hooks }, ..self }),
    {
        let mut b = self;
        b.hooks.pre_provision = Some(hook);
        b
    }

    /// Sets the post-provision hook.
    pub fn with_post_provision_hook(self, hook: String) -> (b: EnvironmentTemplateBuilder)
        ensures
            b == (EnvironmentTemplateBuilder { hooks: TemplateHooks { post_provision: Some(hook), ..self.hooks }, ..self }),
    {
        let mut b = self;
        b.hooks.post_provision = Some(hook);
        b
    }

    /// Sets the pre-teardown hook.
    pub fn with_pre_teardown_hook(self, hook: String) -> (b: EnvironmentTemplateBuilder)
        ensures
            b == (EnvironmentTemplateBuilder { hooks: TemplateHooks { pre_teardown: Some(hook), ..self.hooks }, ..self }),
    {
        let mut b = self;
        b.hooks.pre_teardown = Some(hook);
        b
    }

    /// Sets the post-teardown hook.
    pub fn with_post_teardown_hook(self, hook: String) -> (b: EnvironmentTemplateBuilder)
        ensures
            b == (EnvironmentTemplateBuilder { hooks: TemplateHooks { post_teardown: Some(hook), ..self.hooks }, ..self }),
    {
        let mut b = self;
        b.hooks.post_teardown = Some(hook);
        b
    }

    /// Sets the health-check hook.
    pub fn with_health_check_hook(self, hook: String) -> (b: EnvironmentTemplateBuilder)
        ensures
            b == (EnvironmentTemplateBuilder { hooks: TemplateHooks { health_check: Some(hook), ..self.hooks }, ..self }),
    {
        let mut b = self;
        b.hooks.health_check = Some(hook);
        b
    }

    /// Sets the self-healing hook.
    pub fn with_self_healing_hook(self, hook: String) -> (b: EnvironmentTemplateBuilder)
        ensures
            b == (EnvironmentTemplateBuilder { hooks: TemplateHooks { self_healing: Some(hook), ..self.hooks }, ..self }),
    {
        let mut b = self;
        b.hooks.self_healing = Some(hook);
        b
    }

    /// Sets a metadata entry, by the JSON text of its value. A value of the
    /// library's parameter type always has a JSON text, so this succeeds.
    pub fn with_metadata(self, key: String, value: ParamValue) -> (r: Result<EnvironmentTemplateBuilder, TestHarnessError>)
        ensures
            r matches Ok(b) && b.metadata@ == self.metadata@.insert(key@, param_json(value)) && b == (EnvironmentTemplateBuilder { metadata: b.metadata, ..self }),
    {
        let mut b = self;
        let text = param_json_text(&value);
        b.metadata.insert(key, text);
        Ok(b)
    }

    /// Adds a tag.
    pub fn with_tag(self, tag: String) -> (b: EnvironmentTemplateBuilder)
        ensures
            b.tags@ == self.tags@.push(tag),
            b == (EnvironmentTemplateBuilder { tags: b.tags, ..self }),
    {
        let mut b = self;
        b.tags.push(tag);
        b
    }

    /// Sets the template's version.
    pub fn with_version(self, version: String) -> (b: EnvironmentTemplateBuilder)
        ensures
            b == (EnvironmentTemplateBuilder { version, ..self }),
    {
        EnvironmentTemplateBuilder { version, ..self }
    }

    /// The template, created and last changed at `now`: its identifier is
    /// the one set, else a fresh one.
    pub fn build_at(self, now: i64) -> (t: EnvironmentTemplate)
        ensures
            match self.id {
                Some(id) => t.id == id,
                None => uuid_v4_text(t.id@),
            },
            t.name == self.name,
            t.description == self.description,
            t.base_config == self.base_config,
            t.variables == self.variables,
            t.parameters == self.parameters,
            t.hooks == self.hooks,
            t.metadata == self.metadata,
            t.tags == self.tags,
            t.version == self.version,
            t.created_at == now,
            t.updated_at == now,
    {
        let id = match self.id {
            Some(id) => id,
            None => new_uuid(),
        };
        EnvironmentTemplate {
            id,
            name: self.name,
            description: self.description,
            base_config: self.base_config,
            variables: self.variables,
            parameters: self.parameters,
            hooks: self.hooks,
            metadata: self.metadata,
            tags: self.tags,
            version: self.version,
            created_at: now,
            updated_at: now,
        }
    }

    /// The template, created and last changed now, as `build_at` describes.
    pub fn build(self) -> (t: EnvironmentTemplate)
        ensures
            match self.id {
                Some(id) => t.id == id,
                None => uuid_v4_text(t.id@),
            },
            t.name == self.name,
            t.description == self.description,
            t.base_config == self.base_config,
            t.variables == self.variables,
            t.parameters == self.parameters,
            t.hooks == self.hooks,
            t.metadata == self.metadata,
            t.tags == self.tags,
            t.version == self.version,
            t.created_at == t.updated_at,
            t.created_at >= 0,
    {
        let now = utc_now_ms();
        self.build_at(now)
    }
}

/// A template on `config`, named and described as given, with a fresh
/// identifier, version `1.0.0`, created and last changed at `now`, with no
/// variables, parameters, hooks, metadata or tags.
pub fn template_from_config_at(config: EnvironmentConfig, name: String, description: Option<String>, now: i64) -> (t:
    EnvironmentTemplate)
    ensures
        uuid_v4_text(t.id@),
        t.name == name,
        t.description == description,
        t.base_config == config,
        t.variables@ == Map::<Seq<char>, Seq<char>>::empty(),
        t.parameters@.len() == 0,
        t.hooks.pre_provision is None,
        t.hooks.post_provision is None,
        t.hooks.pre_teardown is None,
        t.hooks.post_teardown is None,
        t.hooks.health_check is None,
        t.hooks.self_healing is None,
        t.metadata@ == Map::<Seq<char>, Seq<char>>::empty(),
        t.tags@.len() == 0,
        t.version@ == "1.0.0"@,
        t.created_at == now,
        t.updated_at == now,
{
    EnvironmentTemplate {
        id: new_uuid(),
        name,
        description,
        base_config: config,
        variables: StrMap::new(),
        parameters: Vec::new(),
        hooks: TemplateHooks::new(),
        metadata: StrMap::new(),
        tags: Vec::new(),
        version: "1.0.0".to_owned(),
        created_at: now,
        updated_at: now,
    }
}

/// A template on `config`, created now, as `template_from_config_at`
/// describes.
pub fn create_template_from_config(config: EnvironmentConfig, name: String, description: Option<String>) -> (t:
    EnvironmentTemplate)
    ensures
        uuid_v4_text(t.id@),
        t.name == name,
        t.description == description,
        t.base_config == config,
        t.variables@ == Map::<Seq<char>, Seq<char>>::empty(),
        t.parameters@.len() == 0,
        t.hooks.pre_provision is None,
        t.hooks.post_provision is None,
        t.hooks.pre_teardown is None,
        t.hooks.post_teardown is None,
        t.hooks.health_check is None,
        t.hooks.self_healing is None,
        t.metadata@ == Map::<Seq<char>, Seq<char>>::empty(),
        t.tags@.len() == 0,
        t.version@ == "1.0.0"@,
        t.created_at == t.updated_at,
        t.created_at >= 0,
{
    let now = utc_now_ms();
    template_from_config_at(config, name, description, now)
}

} // verus!
