//! Test environments: their kinds and settings, the choice of environment
//! a configuration asks for, template hooks and parameters, the checks a
//! parameter value must pass, and the application of parameters to a
//! configuration.

use vstd::prelude::*;
use crate::json::{json_string_text, quoted_json};
use crate::kv::{eq_str, StrMap};
use crate::model::TestHarnessError;

verus! {

/// The settings of a Docker environment when nothing is set.
pub open spec fn docker_is_default(c: DockerConfig) -> bool {
    &&& c.compose_file is None
    &&& c.project_name is None
    &&& c.env_file is None
    &&& c.services@.len() == 0
    &&& !c.use_existing
    &&& c.network is None
    &&& c.volumes@ == Map::<Seq<char>, Seq<char>>::empty()
    &&& c.ports@.len() == 0
    &&& c.env_vars@ == Map::<Seq<char>, Seq<char>>::empty()
}

/// The settings of a Kubernetes environment when nothing is set.
pub open spec fn kubernetes_is_default(c: KubernetesConfig) -> bool {
    &&& c.context is None
    &&& c.namespace is None
    &&& c.config_file is None
    &&& !c.in_cluster
    &&& c.service_account is None
    &&& c.pod_name is None
    &&& c.pod_namespace is None
    &&& c.volume_mounts@ == Map::<Seq<char>, Seq<char>>::empty()
    &&& c.env_vars@ == Map::<Seq<char>, Seq<char>>::empty()
    &&& c.labels@ == Map::<Seq<char>, Seq<char>>::empty()
    &&& c.annotations@ == Map::<Seq<char>, Seq<char>>::empty()
}

/// The settings of a local environment when nothing is set.
pub open spec fn local_is_default(c: LocalConfig) -> bool {
    &&& c.working_dir is None
    &&& c.env_vars@ == Map::<Seq<char>, Seq<char>>::empty()
    &&& c.ports@.len() == 0
    &&& c.database_url is None
    &&& c.redis_url is None
    &&& c.services@ == Map::<Seq<char>, Seq<char>>::empty()
    &&& c.service_commands@ == Map::<Seq<char>, Seq<char>>::empty()
    &&& c.service_ports@.len() == 0
    &&& c.service_env_vars@.len() == 0
    &&& c.service_working_dirs@ == Map::<Seq<char>, Seq<char>>::empty()
    &&& c.service_dependencies@.len() == 0
    &&& c.service_health_check_commands@ == Map::<Seq<char>, Seq<char>>::empty()
    &&& c.service_health_check_urls@ == Map::<Seq<char>, Seq<char>>::empty()
}

/// The settings of a remote environment when nothing is set.
pub open spec fn remote_is_default(c: RemoteConfig) -> bool {
    &&& c.host@ == "localhost"@
    &&& c.port == 22
    &&& c.username is None
    &&& c.password is None
    &&& c.private_key is None
    &&& c.private_key_file is None
    &&& c.passphrase is None
    &&& c.working_dir is None
    &&& c.env_vars@ == Map::<Seq<char>, Seq<char>>::empty()
    &&& c.ports@.len() == 0
    &&& c.services@ == Map::<Seq<char>, Seq<char>>::empty()
}

/// Where tests run.
#[derive(Debug, Clone, Copy, PartialEq, Eq, Structural, Hash)]
pub enum EnvironmentType {
    Local,
    Docker,
    Kubernetes,
    Remote,
}

impl Default for EnvironmentType {
    /// Local.
    fn default() -> (t: Self)
        ensures
            t == EnvironmentType::Local,
    {
        EnvironmentType::Local
    }
}

/// Settings of a Docker environment.
pub struct DockerConfig {
    pub compose_file: Option<String>,
    pub project_name: Option<String>,
    pub env_file: Option<String>,
    pub services: Vec<String>,
    pub use_existing: bool,
    pub network: Option<String>,
    pub volumes: StrMap,
    /// Host port to container port, each host port once.
    pub ports: Vec<(u16, u16)>,
    pub env_vars: StrMap,
}

impl Default for DockerConfig {
    /// Nothing set.
    fn default() -> (c: Self)
        ensures
            docker_is_default(c),
    {
        DockerConfig {
            compose_file: None,
            project_name: None,
            env_file: None,
            services: Vec::new(),
            use_existing: false,
            network: None,
            volumes: StrMap::new(),
            ports: Vec::new(),
            env_vars: StrMap::new(),
        }
    }
}

/// Settings of a Kubernetes environment.
pub struct KubernetesConfig {
    pub context: Option<String>,
    pub namespace: Option<String>,
    pub config_file: Option<String>,
    pub in_cluster: bool,
    pub service_account: Option<String>,
    pub pod_name: Option<String>,
    pub pod_namespace: Option<String>,
    pub volume_mounts: StrMap,
    pub env_vars: StrMap,
    pub labels: StrMap,
    pub annotations: StrMap,
}

impl Default for KubernetesConfig {
    /// Nothing set, not in a cluster.
    fn default() -> (c: Self)
        ensures
            kubernetes_is_default(c),
    {
        KubernetesConfig {
            context: None,
            namespace: None,
            config_file: None,
            in_cluster: false,
            service_account: None,
            pod_name: None,
            pod_namespace: None,
            volume_mounts: StrMap::new(),
            env_vars: StrMap::new(),
            labels: StrMap::new(),
            annotations: StrMap::new(),
        }
    }
}

/// Settings of a local environment.
pub struct LocalConfig {
    pub working_dir: Option<String>,
    pub env_vars: StrMap,
    /// Host port to local port, each host port once.
    pub ports: Vec<(u16, u16)>,
    pub database_url: Option<String>,
    pub redis_url: Option<String>,
    pub services: StrMap,
    pub service_commands: StrMap,
    pub service_ports: Vec<(String, u16)>,
    pub service_env_vars: Vec<(String, StrMap)>,
    pub service_working_dirs: StrMap,
    pub service_dependencies: Vec<(String, Vec<String>)>,
    pub service_health_check_commands: StrMap,
    pub service_health_check_urls: StrMap,
}

impl Default for LocalConfig {
    /// Nothing set.
    fn default() -> (c: Self)
        ensures
            local_is_default(c),
    {
        LocalConfig {
            working_dir: None,
            env_vars: StrMap::new(),
            ports: Vec::new(),
            database_url: None,
            redis_url: None,
            services: StrMap::new(),
            service_commands: StrMap::new(),
            service_ports: Vec::new(),
            service_env_vars: Vec::new(),
            service_working_dirs: StrMap::new(),
            service_dependencies: Vec::new(),
            service_health_check_commands: StrMap::new(),
            service_health_check_urls: StrMap::new(),
        }
    }
}

/// Settings of a remote environment reached over SSH.
pub struct RemoteConfig {
    pub host: String,
    pub port: u16,
    pub username: Option<String>,
    pub password: Option<String>,
    pub private_key: Option<String>,
    pub private_key_file: Option<String>,
    pub passphrase: Option<String>,
    pub working_dir: Option<String>,
    pub env_vars: StrMap,
    /// Host port to remote port, each host port once.
    pub ports: Vec<(u16, u16)>,
    pub services: StrMap,
}

impl Default for RemoteConfig {
    /// `localhost`, port 22, no credentials.
    fn default() -> (c: Self)
        ensures
            remote_is_default(c),
    {
        RemoteConfig {
            host: "localhost".to_owned(),
            port: 22,
            username: None,
            password: None,
            private_key: None,
            private_key_file: None,
            passphrase: None,
            working_dir: None,
            env_vars: StrMap::new(),
            ports: Vec::new(),
            services: StrMap::new(),
        }
    }
}

/// A parameter value, as the environment logic reads it: a string, a
/// boolean, or any other JSON value by its canonical text.
#[derive(Debug)]
pub enum ParamValue {
    Text(String),
    Bool(bool),
    Other(String),
}

/// The canonical JSON text of a parameter value.
pub open spec fn param_json(v: ParamValue) -> Seq<char> {
    match v {
        ParamValue::Text(s) => quoted_json(s@),
        ParamValue::Bool(b) => if b {
            "true"@
        } else {
            "false"@
        },
        ParamValue::Other(t) => t@,
    }
}

/// The canonical JSON text of a parameter value.
pub fn param_json_text(v: &ParamValue) -> (t: String)
    ensures
        t@ == param_json(*v),
{
    match v {
        ParamValue::Text(s) => json_string_text(s.as_str()),
        ParamValue::Bool(b) => if *b {
            "true".to_owned()
        } else {
            "false".to_owned()
        },
        ParamValue::Other(t) => t.clone(),
    }
}

/// Everything that describes a test environment.
pub struct EnvironmentConfig {
    pub env_type: EnvironmentType,
    pub id: String,
    pub name: String,
    pub description: Option<String>,
    pub base_dir: String,
    pub use_temp_dir: bool,
    pub env_vars: StrMap,
    pub test_data_dir: Option<String>,
    pub cleanup: bool,
    pub docker_config: Option<DockerConfig>,
    pub kubernetes_config: Option<KubernetesConfig>,
    pub local_config: Option<LocalConfig>,
    pub remote_config: Option<RemoteConfig>,
    pub database_url: Option<String>,
    pub redis_url: Option<String>,
    pub kafka_url: Option<String>,
    pub elasticsearch_url: Option<String>,
    pub s3_url: Option<String>,
    pub services: StrMap,
    /// Custom properties, each by the canonical text of its JSON value.
    pub properties: StrMap,
}

impl Default for EnvironmentConfig {
    /// A local environment named `test-environment` with a fresh
    /// identifier, in `test_artifacts` or a temporary directory, cleaned up
    /// afterwards, with nothing else set.
    fn default() -> (c: Self)
        ensures
            c.env_type == EnvironmentType::Local,
            uuid_v4_text(c.id@),
            c.name@ == "test-environment"@,
            c.description is None,
            c.base_dir@ == "test_artifacts"@,
            c.use_temp_dir,
            c.env_vars@ == Map::<Seq<char>, Seq<char>>::empty(),
            c.test_data_dir is None,
            c.cleanup,
            c.docker_config is None,
            c.kubernetes_config is None,
            c.local_config is None,
            c.remote_config is None,
            c.database_url is None,
            c.redis_url is None,
            c.kafka_url is None,
            c.elasticsearch_url is None,
            c.s3_url is None,
            c.services@ == Map::<Seq<char>, Seq<char>>::empty(),
            c.properties@ == Map::<Seq<char>, Seq<char>>::empty(),
    {
        EnvironmentConfig {
            env_type: EnvironmentType::Local,
            id: new_uuid(),
            name: "test-environment".to_owned(),
            description: None,
            base_dir: "test_artifacts".to_owned(),
            use_temp_dir: true,
            env_vars: StrMap::new(),
            test_data_dir: None,
            cleanup: true,
            docker_config: None,
            kubernetes_config: None,
            local_config: None,
            remote_config: None,
            database_url: None,
            redis_url: None,
            kafka_url: None,
            elasticsearch_url: None,
            s3_url: None,
            services: StrMap::new(),
            properties: StrMap::new(),
        }
    }
}

/// Builds an environment configuration step by step, from the default.
pub struct EnvironmentBuilder {
    pub config: EnvironmentConfig,
}

impl EnvironmentBuilder {
    /// A builder holding the default configuration.
    pub fn new() -> (b: EnvironmentBuilder)
        ensures
            b.config.env_type == EnvironmentType::Local,
            uuid_v4_text(b.config.id@),
            b.config.name@ == "test-environment"@,
            b.config.description is None,
            b.config.base_dir@ == "test_artifacts"@,
            b.config.use_temp_dir,
            b.config.env_vars@ == Map::<Seq<char>, Seq<char>>::empty(),
            b.config.test_data_dir is None,
            b.config.cleanup,
            b.config.docker_config is None,
            b.config.kubernetes_config is None,
            b.config.local_config is None,
            b.config.remote_config is None,
            b.config.database_url is None,
            b.config.redis_url is None,
            b.config.kafka_url is None,
            b.config.elasticsearch_url is None,
            b.config.s3_url is None,
            b.config.services@ == Map::<Seq<char>, Seq<char>>::empty(),
            b.config.properties@ == Map::<Seq<char>, Seq<char>>::empty(),
    {
        EnvironmentBuilder { config: EnvironmentConfig::default() }
    }

    /// Sets the kind of environment.
    pub fn with_env_type(self, env_type: EnvironmentType) -> (b: EnvironmentBuilder)
        ensures
            b.config == (EnvironmentConfig { env_type: env_type, ..self.config }),
    {
        let mut b = self;
        b.config = EnvironmentConfig { env_type: env_type, ..b.config };
        b
    }

    /// Sets the identifier.
    pub fn with_id(self, id: String) -> (b: EnvironmentBuilder)
        ensures
            b.config == (EnvironmentConfig { id: id, ..self.config }),
    {
        let mut b = self;
        b.config = EnvironmentConfig { id: id, ..b.config };
        b
    }

    /// Sets the name.
    pub fn with_name(self, name: String) -> (b: EnvironmentBuilder)
        ensures
            b.config == (EnvironmentConfig { name: name, ..self.config }),
    {
        let mut b = self;
        b.config = EnvironmentConfig { name: name, ..b.config };
        b
    }

    /// Sets the description.
    pub fn with_description(self, description: String) -> (b: EnvironmentBuilder)
        ensures
            b.config == (EnvironmentConfig { description: Some(description), ..self.config }),
    {
        let mut b = self;
        b.config = EnvironmentConfig { description: Some(description), ..b.config };
        b
    }

    /// Sets the base directory.
    pub fn with_base_dir(self, base_dir: String) -> (b: EnvironmentBuilder)
        ensures
            b.config == (EnvironmentConfig { base_dir: base_dir, ..self.config }),
    {
        let mut b = self;
        b.config = EnvironmentConfig { base_dir: base_dir, ..b.config };
        b
    }

    /// Sets whether a temporary directory is used.
    pub fn with_temp_dir(self, use_temp_dir: bool) -> (b: EnvironmentBuilder)
        ensures
            b.config == (EnvironmentConfig { use_temp_dir: use_temp_dir, ..self.config }),
    {
        let mut b = self;
        b.config = EnvironmentConfig { use_temp_dir: use_temp_dir, ..b.config };
        b
    }

    /// Sets the test data directory.
    pub fn with_test_data_dir(self, dir: String) -> (b: EnvironmentBuilder)
        ensures
            b.config == (EnvironmentConfig { test_data_dir: Some(dir), ..self.config }),
    {
        let mut b = self;
        b.config = EnvironmentConfig { test_data_dir: Some(dir), ..b.config };
        b
    }

    /// Sets whether the environment is cleaned up afterwards.
    pub fn with_cleanup(self, cleanup: bool) -> (b: EnvironmentBuilder)
        ensures
            b.config == (EnvironmentConfig { cleanup: cleanup, ..self.config }),
    {
        let mut b = self;
        b.config = EnvironmentConfig { cleanup: cleanup, ..b.config };
        b
    }

    /// Sets the Docker settings.
    pub fn with_docker_config(self, docker_config: DockerConfig) -> (b: EnvironmentBuilder)
        ensures
            b.config == (EnvironmentConfig { docker_config: Some(docker_config), ..self.config }),
    {
        let mut b = self;
        b.config = EnvironmentConfig { docker_config: Some(docker_config), ..b.config };
        b
    }

    /// Sets the Kubernetes settings.
    pub fn with_kubernetes_config(self, kubernetes_config: KubernetesConfig) -> (b: EnvironmentBuilder)
        ensures
            b.config == (EnvironmentConfig { kubernetes_config: Some(kubernetes_config), ..self.config }),
    {
        let mut b = self;
        b.config = EnvironmentConfig { kubernetes_config: Some(kubernetes_config), ..b.config };
        b
    }

    /// Sets the local settings.
    pub fn with_local_config(self, local_config: LocalConfig) -> (b: EnvironmentBuilder)
        ensures
            b.config == (EnvironmentConfig { local_config: Some(local_config), ..self.config }),
    {
        let mut b = self;
        b.config = EnvironmentConfig { local_config: Some(local_config), ..b.config };
        b
    }

    /// Sets the remote settings.
    pub fn with_remote_config(self, remote_config: RemoteConfig) -> (b: EnvironmentBuilder)
        ensures
            b.config == (EnvironmentConfig { remote_config: Some(remote_config), ..self.config }),
    {
        let mut b = self;
        b.config = EnvironmentConfig { remote_config: Some(remote_config), ..b.config };
        b
    }

    /// Sets the database URL.
    pub fn with_database_url(self, url: String) -> (b: EnvironmentBuilder)
        ensures
            b.config == (EnvironmentConfig { database_url: Some(url), ..self.config }),
    {
        let mut b = self;
        b.config = EnvironmentConfig { database_url: Some(url), ..b.config };
        b
    }

    /// Sets the Redis URL.
    pub fn with_redis_url(self, url: String) -> (b: EnvironmentBuilder)
        ensures
            b.config == (EnvironmentConfig { redis_url: Some(url), ..self.config }),
    {
        let mut b = self;
        b.config = EnvironmentConfig { redis_url: Some(url), ..b.config };
        b
    }

    /// Sets the Kafka URL.
    pub fn with_kafka_url(self, url: String) -> (b: EnvironmentBuilder)
        ensures
            b.config == (EnvironmentConfig { kafka_url: Some(url), ..self.config }),
    {
        let mut b = self;
        b.config = EnvironmentConfig { kafka_url: Some(url), ..b.config };
        b
    }

    /// Sets the Elasticsearch URL.
    pub fn with_elasticsearch_url(self, url: String) -> (b: EnvironmentBuilder)
        ensures
            b.config == (EnvironmentConfig { elasticsearch_url: Some(url), ..self.config }),
    {
        let mut b = self;
        b.config = EnvironmentConfig { elasticsearch_url: Some(url), ..b.config };
        b
    }

    /// Sets the S3 URL.
    pub fn with_s3_url(self, url: String) -> (b: EnvironmentBuilder)
        ensures
            b.config == (EnvironmentConfig { s3_url: Some(url), ..self.config }),
    {
        let mut b = self;
        b.config = EnvironmentConfig { s3_url: Some(url), ..b.config };
        b
    }

    /// Adds a variable.
    pub fn with_env_var(self, key: String, value: String) -> (b: EnvironmentBuilder)
        ensures
            b.config.env_vars@ == self.config.env_vars@.insert(key@, value@),
            b.config == (EnvironmentConfig { env_vars: b.config.env_vars, ..self.config }),
    {
        let mut b = self;
        b.config.env_vars.insert(key, value);
        b
    }

    /// Adds variables, in order.
    pub fn with_env_vars(self, vars: Vec<(String, String)>) -> (b: EnvironmentBuilder)
        ensures
            b.config.env_vars@ == self.config.env_vars@.union_prefer_right(crate::kv::map_of(vars@)),
            b.config == (EnvironmentConfig { env_vars: b.config.env_vars, ..self.config }),
    {
        let mut b = self;
        b.config.env_vars.insert_pairs(vars);
        b
    }

    /// Adds a service and its endpoint.
    pub fn with_service(self, name: String, endpoint: String) -> (b: EnvironmentBuilder)
        ensures
            b.config.services@ == self.config.services@.insert(name@, endpoint@),
            b.config == (EnvironmentConfig { services: b.config.services, ..self.config }),
    {
        let mut b = self;
        b.config.services.insert(name, endpoint);
        b
    }

    /// Adds services, in order.
    pub fn with_services(self, services: Vec<(String, String)>) -> (b: EnvironmentBuilder)
        ensures
            b.config.services@ == self.config.services@.union_prefer_right(crate::kv::map_of(services@)),
            b.config == (EnvironmentConfig { services: b.config.services, ..self.config }),
    {
        let mut b = self;
        b.config.services.insert_pairs(services);
        b
    }

    /// Adds a property, by the JSON text of its value.
    pub fn with_property(self, key: String, value: ParamValue) -> (b: EnvironmentBuilder)
        ensures
            b.config.properties@ == self.config.properties@.insert(key@, param_json(value)),
            b.config == (EnvironmentConfig { properties: b.config.properties, ..self.config }),
    {
        let mut b = self;
        let text = param_json_text(&value);
        b.config.properties.insert(key, text);
        b
    }

    /// The environment the configuration asks for; creating it is done by
    /// the runner.
    pub fn build(self) -> (p: EnvironmentPlan)
        ensures
            plan_for(self.config, p),
    {
        EnvironmentFactory::plan(self.config)
    }
}


/// The environment a configuration asks for, with its settings: those
/// configured for its kind, or the defaults of that kind.
pub enum EnvironmentPlan {
    Local(LocalConfig),
    Docker(DockerConfig),
    Kubernetes(KubernetesConfig),
    Remote(RemoteConfig),
}

/// `p` is the environment `config` asks for: of its kind, with the
/// settings configured for that kind, or the kind's defaults when none are.
pub open spec fn plan_for(config: EnvironmentConfig, p: EnvironmentPlan) -> bool {
    match config.env_type {
        EnvironmentType::Local => p matches EnvironmentPlan::Local(c) && match config.local_config {
            Some(x) => c == x,
            None => local_is_default(c),
        },
        EnvironmentType::Docker => p matches EnvironmentPlan::Docker(c) && match config.docker_config {
            Some(x) => c == x,
            None => docker_is_default(c),
        },
        EnvironmentType::Kubernetes => p matches EnvironmentPlan::Kubernetes(c) && match config.kubernetes_config {
            Some(x) => c == x,
            None => kubernetes_is_default(c),
        },
        EnvironmentType::Remote => p matches EnvironmentPlan::Remote(c) && match config.remote_config {
            Some(x) => c == x,
            None => remote_is_default(c),
        },
    }
}

/// Creates environments from configurations.
pub struct EnvironmentFactory;

impl EnvironmentFactory {
    /// The environment `config` asks for: of its kind, with the settings
    /// configured for that kind or the kind's defaults. Creating it is done
    /// by the runner.
    pub fn plan(config: EnvironmentConfig) -> (p: EnvironmentPlan)
        ensures
            plan_for(config, p),
    {
        match config.env_type {
            EnvironmentType::Local => EnvironmentPlan::Local(
                match config.local_config {
                    Some(c) => c,
                    None => LocalConfig::default(),
                },
            ),
            EnvironmentType::Docker => EnvironmentPlan::Docker(
                match config.docker_config {
                    Some(c) => c,
                    None => DockerConfig::default(),
                },
            ),
            EnvironmentType::Kubernetes => EnvironmentPlan::Kubernetes(
                match config.kubernetes_config {
                    Some(c) => c,
                    None => KubernetesConfig::default(),
                },
            ),
            EnvironmentType::Remote => EnvironmentPlan::Remote(
                match config.remote_config {
                    Some(c) => c,
                    None => RemoteConfig::default(),
                },
            ),
        }
    }
}

/// The type of a template parameter.
#[derive(Debug, Clone)]
pub enum TemplateParameterType {
    String,
    Integer,
    Float,
    Boolean,
    Array,
    Object,
    Enum(Vec<String>),
}

/// Commands run around the life of an environment made from a template.
#[derive(Debug, Clone)]
pub struct TemplateHooks {
    pub pre_provision: Option<String>,
    pub post_provision: Option<String>,
    pub pre_teardown: Option<String>,
    pub post_teardown: Option<String>,
    pub health_check: Option<String>,
    pub self_healing: Option<String>,
}

impl TemplateHooks {
    /// No hooks.
    pub fn new() -> (h: TemplateHooks)
        ensures
            h.pre_provision is None,
            h.post_provision is None,
            h.pre_teardown is None,
            h.post_teardown is None,
            h.health_check is None,
            h.self_healing is None,
    {
        TemplateHooks {
            pre_provision: None,
            post_provision: None,
            pre_teardown: None,
            post_teardown: None,
            health_check: None,
            self_healing: None,
        }
    }
}


/// What the environment logic checks of a parameter value; numeric bounds
/// are checked by the runner.
#[derive(Debug)]
pub struct TemplateParameterValidation {
    pub min_length: Option<usize>,
    pub max_length: Option<usize>,
    pub pattern: Option<String>,
    pub allowed_values: Option<Vec<ParamValue>>,
}

/// A parameter of an environment template.
#[derive(Debug)]
pub struct TemplateParameter {
    pub name: String,
    pub description: Option<String>,
    pub param_type: TemplateParameterType,
    pub default_value: Option<ParamValue>,
    pub required: bool,
    pub validation: Option<TemplateParameterValidation>,
}

/// Whether a regular expression matches a text: `None` when the pattern is
/// not a valid expression.
pub uninterp spec fn regex_match_result(pattern: Seq<char>, text: Seq<char>) -> Option<bool>;

/// The message of the error that an invalid pattern gives.
pub uninterp spec fn regex_error_text(pattern: Seq<char>) -> Seq<char>;

/// Compiles `pattern` with `regex::Regex::new` and, when it compiles, tells
/// whether it matches somewhere in `text` (`Regex::is_match`); else gives
/// the compile error's message (`to_string`). Both are functions of the
/// pattern and text alone.
#[verifier::external_body]
fn regex_is_match(pattern: &str, text: &str) -> (r: Result<bool, String>)
    ensures
        match r {
            Ok(b) => regex_match_result(pattern@, text@) == Some(b),
            Err(e) => regex_match_result(pattern@, text@) is None && e@ == regex_error_text(pattern@),
        },
{
    match regex::Regex::new(pattern) {
        Ok(re) => Ok(re.is_match(text)),
        Err(e) => Err(e.to_string()),
    }
}

/// The number of bytes of a text in UTF-8, as `str::len` counts.
pub open spec fn utf8_len(s: Seq<char>) -> nat {
    vstd::utf8::encode_utf8(s).len()
}


/// The texts of `v` joined by `sep`.
pub open spec fn joined(v: Seq<Seq<char>>, sep: Seq<char>) -> Seq<char>
    decreases v.len(),
{
    if v.len() == 0 {
        Seq::empty()
    } else if v.len() == 1 {
        v[0]
    } else {
        joined(v.drop_last(), sep) + sep + v.last()
    }
}

/// Joins strings with a separator.
pub fn join_strings(v: &Vec<String>, sep: &str) -> (r: String)
    ensures
        r@ == joined(crate::text::views(v@), sep@),
{
    let mut r = String::new();
    let ghost vs = crate::text::views(v@);
    let mut i: usize = 0;
    while i < v.len()
        invariant
            i <= v.len(),
            vs == crate::text::views(v@),
            r@ == joined(vs.subrange(0, i as int), sep@),
        decreases v.len() - i,
    {
        assert(vs.subrange(0, i + 1).drop_last() =~= vs.subrange(0, i as int));
        if i > 0 {
            r.append(sep);
        } else {
            assert(r@ =~= Seq::<char>::empty());
        }
        r.append(v[i].as_str());
        assert(vs.subrange(0, i + 1).last() == v@[i as int]@);
        i += 1;
    }
    assert(vs.subrange(0, i as int) =~= vs);
    r
}

/// `Parameter `, the name, then `rest`.
pub open spec fn param_msg(name: Seq<char>, rest: Seq<char>) -> Seq<char> {
    "Parameter "@ + name + rest
}

/// The message of the first check a value of a parameter fails, if any:
/// a required parameter without value or default is missing; then, when the
/// parameter has a validation and a value, a string parameter's value must
/// be a string of at least `min_length` and at most `max_length` bytes
/// matching `pattern`; a numeric parameter's value must pass the numeric
/// check (`numeric`, made by the runner); an enumerated parameter's value
/// must be one of the listed strings; and the value must equal one of the
/// allowed values (as `values_equal` compares their texts).
pub open spec fn parameter_error(p: TemplateParameter, value: Option<ParamValue>, numeric: Option<Seq<char>>) -> Option<
    Seq<char>,
> {
    let name = p.name@;
    if p.required && value is None && p.default_value is None {
        Some("Required parameter "@ + name + " is missing"@)
    } else {
        match (value, p.validation) {
            (Some(v), Some(val)) => {
                let type_error: Option<Seq<char>> = match p.param_type {
                    TemplateParameterType::String => match v {
                        ParamValue::Text(s) => if val.min_length matches Some(min) && utf8_len(s@) < min {
                            Some(param_msg(name, " must be at least "@ + crate::chars::decimal(val.min_length.unwrap() as nat) + " characters long"@))
                        } else if val.max_length matches Some(max) && utf8_len(s@) > max {
                            Some(param_msg(name, " must be at most "@ + crate::chars::decimal(val.max_length.unwrap() as nat) + " characters long"@))
                        } else {
                            match val.pattern {
                                Some(pat) => match regex_match_result(pat@, s@) {
                                    None => Some("Invalid regex pattern for parameter "@ + name + ": "@ + regex_error_text(pat@)),
                                    Some(false) => Some(param_msg(name, " must match pattern "@ + pat@)),
                                    Some(true) => None,
                                },
                                None => None,
                            }
                        },
                        _ => Some(param_msg(name, " must be a string"@)),
                    },
                    TemplateParameterType::Integer | TemplateParameterType::Float => numeric,
                    TemplateParameterType::Enum(allowed) => match v {
                        ParamValue::Text(s) => if crate::text::views(allowed@).contains(s@) {
                            None
                        } else {
                            Some(param_msg(name, " must be one of: "@ + joined(crate::text::views(allowed@), ", "@)))
                        },
                        _ => Some(param_msg(name, " must be a string"@)),
                    },
                    _ => None,
                };
                if type_error is Some {
                    type_error
                } else {
                    match val.allowed_values {
                        Some(allowed) => if exists|k: int| 0 <= k < allowed.len() && values_equal(param_json(#[trigger] allowed@[k]), param_json(v)) {
                            None
                        } else {
                            Some(param_msg(name, " must be one of the allowed values"@))
                        },
                        None => None,
                    }
                }
            },
            _ => None,
        }
    }
}

/// What `serde_json` makes of two texts: `Some(e)` when both read as JSON
/// values, `e` telling whether the values are equal; `None` when either
/// text is not JSON.
pub uninterp spec fn json_equal(a: Seq<char>, b: Seq<char>) -> Option<bool>;

/// Two parameter texts stand for the same value: equal JSON values where
/// both texts are JSON, else the same text.
pub open spec fn values_equal(a: Seq<char>, b: Seq<char>) -> bool {
    match json_equal(a, b) {
        Some(e) => e,
        None => a == b,
    }
}

/// Reads both texts with `serde_json::from_str` into `serde_json::Value`s
/// and, where both read, compares them with `==` (numbers by their value,
/// so `-0.0` equals `0.0`). The result is a function of the texts.
#[verifier::external_body]
fn json_texts_equal(a: &str, b: &str) -> (r: Option<bool>)
    ensures
        r == json_equal(a@, b@),
{
    match (serde_json::from_str::<serde_json::Value>(a), serde_json::from_str::<serde_json::Value>(b)) {
        (Ok(x), Ok(y)) => Some(x == y),
        _ => None,
    }
}

/// Is a value equal to the one of this canonical text among the allowed
/// values?
fn allowed_contains(allowed: &Vec<ParamValue>, text: &String) -> (b: bool)
    ensures
        b == exists|k: int| 0 <= k < allowed.len() && values_equal(param_json(#[trigger] allowed@[k]), text@),
{
    let mut k: usize = 0;
    while k < allowed.len()
        invariant
            k <= allowed.len(),
            forall|j: int| 0 <= j < k ==> !values_equal(param_json(#[trigger] allowed@[j]), text@),
        decreases allowed.len() - k,
    {
        let t = param_json_text(&allowed[k]);
        let same = match json_texts_equal(t.as_str(), text.as_str()) {
            Some(e) => e,
            None => eq_str(t.as_str(), text.as_str()),
        };
        if same {
            return true;
        }
        k += 1;
    }
    false
}

/// A configuration error of the given message.
fn config_error(m: String) -> (e: TestHarnessError)
    ensures
        e matches TestHarnessError::ConfigurationError(x) && x@ == m@,
{
    TestHarnessError::ConfigurationError(m)
}

/// Checks a parameter's value (or its absence) as `parameter_error`
/// describes; a failed check is a configuration error with its message.
pub fn validate_parameter(p: &TemplateParameter, value: Option<&ParamValue>, numeric: Option<&str>) -> (r: Result<
    (),
    TestHarnessError,
>)
    ensures
        match parameter_error(*p, match value { Some(v) => Some(*v), None => None }, match numeric { Some(m) => Some(m@), None => None }) {
            None => r is Ok,
            Some(m) => r matches Err(TestHarnessError::ConfigurationError(x)) && x@ == m,
        },
{
    if p.required && value.is_none() && p.default_value.is_none() {
        let mut m = "Required parameter ".to_owned();
        m.append(p.name.as_str());
        m.append(" is missing");
        return Err(config_error(m));
    }
    let (v, val) = match (value, &p.validation) {
        (Some(v), Some(val)) => (v, val),
        _ => {
            return Ok(());
        },
    };
    let mut msg = "Parameter ".to_owned();
    msg.append(p.name.as_str());
    match &p.param_type {
        TemplateParameterType::String => {
            match v {
                ParamValue::Text(s) => {
                    let len = s.as_str().as_bytes().len();
                    if let Some(min) = val.min_length {
                        if len < min {
                            msg.append(" must be at least ");
                            msg.append(crate::chars::decimal_string(min as u64).as_str());
                            msg.append(" characters long");
                            assert(msg@ =~= param_msg(p.name@, " must be at least "@ + crate::chars::decimal(min as nat) + " characters long"@));
                            return Err(config_error(msg));
                        }
                    }
                    if let Some(max) = val.max_length {
                        if len > max {
                            msg.append(" must be at most ");
                            msg.append(crate::chars::decimal_string(max as u64).as_str());
                            msg.append(" characters long");
                            assert(msg@ =~= param_msg(p.name@, " must be at most "@ + crate::chars::decimal(max as nat) + " characters long"@));
                            return Err(config_error(msg));
                        }
                    }
                    if let Some(pat) = &val.pattern {
                        match regex_is_match(pat.as_str(), s.as_str()) {
                            Err(e) => {
                                let mut m = "Invalid regex pattern for parameter ".to_owned();
                                m.append(p.name.as_str());
                                m.append(": ");
                                m.append(e.as_str());
                                assert(m@ =~= "Invalid regex pattern for parameter "@ + p.name@ + ": "@ + regex_error_text(pat@));
                                return Err(config_error(m));
                            },
                            Ok(false) => {
                                msg.append(" must match pattern ");
                                msg.append(pat.as_str());
                                assert(msg@ =~= param_msg(p.name@, " must match pattern "@ + pat@));
                                return Err(config_error(msg));
                            },
                            Ok(true) => {},
                        }
                    }
                },
                _ => {
                    msg.append(" must be a string");
                    return Err(config_error(msg));
                },
            }
        },
        TemplateParameterType::Integer | TemplateParameterType::Float => {
            if let Some(m) = numeric {
                return Err(config_error(m.to_owned()));
            }
        },
        TemplateParameterType::Enum(allowed) => {
            match v {
                ParamValue::Text(s) => {
                    if !crate::text::contains_string(allowed, s) {
                        msg.append(" must be one of: ");
                        msg.append(join_strings(allowed, ", ").as_str());
                        assert(msg@ =~= param_msg(p.name@, " must be one of: "@ + joined(crate::text::views(allowed@), ", "@)));
                        return Err(config_error(msg));
                    }
                },
                _ => {
                    msg.append(" must be a string");
                    return Err(config_error(msg));
                },
            }
        },
        _ => {},
    }
    if let Some(allowed) = &val.allowed_values {
        let text = param_json_text(v);
        if !allowed_contains(allowed, &text) {
            msg.append(" must be one of the allowed values");
            return Err(config_error(msg));
        }
    }
    Ok(())
}


/// The fields of a configuration that parameters can set.
pub struct ConfigFields {
    pub env_type: EnvironmentType,
    pub name: Seq<char>,
    pub description: Option<Seq<char>>,
    pub base_dir: Seq<char>,
    pub use_temp_dir: bool,
    pub cleanup: bool,
    pub database_url: Option<Seq<char>>,
    pub redis_url: Option<Seq<char>>,
    pub kafka_url: Option<Seq<char>>,
    pub elasticsearch_url: Option<Seq<char>>,
    pub s3_url: Option<Seq<char>>,
    pub env_vars: Map<Seq<char>, Seq<char>>,
    pub services: Map<Seq<char>, Seq<char>>,
    pub properties: Map<Seq<char>, Seq<char>>,
}

/// The view of an optional string.
pub open spec fn opt_view(s: Option<String>) -> Option<Seq<char>> {
    match s {
        Some(x) => Some(x@),
        None => None,
    }
}

/// Both configurations have the same fields that no parameter sets: the
/// test data directory and the settings of each kind of environment.
pub open spec fn same_fixed_fields(a: EnvironmentConfig, b: EnvironmentConfig) -> bool {
    &&& a.test_data_dir == b.test_data_dir
    &&& a.docker_config == b.docker_config
    &&& a.kubernetes_config == b.kubernetes_config
    &&& a.local_config == b.local_config
    &&& a.remote_config == b.remote_config
}

/// The settable fields of a configuration.
pub open spec fn fields_of(c: EnvironmentConfig) -> ConfigFields {
    ConfigFields {
        env_type: c.env_type,
        name: c.name@,
        description: opt_view(c.description),
        base_dir: c.base_dir@,
        use_temp_dir: c.use_temp_dir,
        cleanup: c.cleanup,
        database_url: opt_view(c.database_url),
        redis_url: opt_view(c.redis_url),
        kafka_url: opt_view(c.kafka_url),
        elasticsearch_url: opt_view(c.elasticsearch_url),
        s3_url: opt_view(c.s3_url),
        env_vars: c.env_vars@,
        services: c.services@,
        properties: c.properties@,
    }
}

/// `s` starts with `prefix`.
pub open spec fn has_prefix(s: Seq<char>, prefix: Seq<char>) -> bool {
    s.len() >= prefix.len() && s.subrange(0, prefix.len() as int) == prefix
}

/// `s` without its first `n` characters.
pub open spec fn after_prefix(s: Seq<char>, n: nat) -> Seq<char> {
    s.subrange(n as int, s.len() as int)
}

/// The environment kind a parameter names.
pub open spec fn env_type_named(s: Seq<char>) -> Option<EnvironmentType> {
    if s == "local"@ {
        Some(EnvironmentType::Local)
    } else if s == "docker"@ {
        Some(EnvironmentType::Docker)
    } else if s == "kubernetes"@ {
        Some(EnvironmentType::Kubernetes)
    } else if s == "remote"@ {
        Some(EnvironmentType::Remote)
    } else {
        None
    }
}

/// The fields after setting the parameter `name` to `v`: the named fields
/// take string or boolean values of their kind and ignore others; an
/// unknown environment kind is an error; `property.` names set a custom
/// property to the value's JSON text, `env.` and `service.` names set an
/// environment variable or a service to a string value; other names are
/// ignored.
pub open spec fn apply_param(f: ConfigFields, name: Seq<char>, v: ParamValue) -> Result<ConfigFields, Seq<char>> {
    if name == "env_type"@ {
        match v {
            ParamValue::Text(s) => match env_type_named(s@) {
                Some(t) => Ok(ConfigFields { env_type: t, ..f }),
                None => Err("Invalid environment type: "@ + s@),
            },
            _ => Ok(f),
        }
    } else if name == "name"@ {
        match v {
            ParamValue::Text(s) => Ok(ConfigFields { name: s@, ..f }),
            _ => Ok(f),
        }
    } else if name == "description"@ {
        match v {
            ParamValue::Text(s) => Ok(ConfigFields { description: Some(s@), ..f }),
            _ => Ok(f),
        }
    } else if name == "base_dir"@ {
        match v {
            ParamValue::Text(s) => Ok(ConfigFields { base_dir: s@, ..f }),
            _ => Ok(f),
        }
    } else if name == "use_temp_dir"@ {
        match v {
            ParamValue::Bool(b) => Ok(ConfigFields { use_temp_dir: b, ..f }),
            _ => Ok(f),
        }
    } else if name == "cleanup"@ {
        match v {
            ParamValue::Bool(b) => Ok(ConfigFields { cleanup: b, ..f }),
            _ => Ok(f),
        }
    } else if name == "database_url"@ {
        match v {
            ParamValue::Text(s) => Ok(ConfigFields { database_url: Some(s@), ..f }),
            _ => Ok(f),
        }
    } else if name == "redis_url"@ {
        match v {
            ParamValue::Text(s) => Ok(ConfigFields { redis_url: Some(s@), ..f }),
            _ => Ok(f),
        }
    } else if name == "kafka_url"@ {
        match v {
            ParamValue::Text(s) => Ok(ConfigFields { kafka_url: Some(s@), ..f }),
            _ => Ok(f),
        }
    } else if name == "elasticsearch_url"@ {
        match v {
            ParamValue::Text(s) => Ok(ConfigFields { elasticsearch_url: Some(s@), ..f }),
            _ => Ok(f),
        }
    } else if name == "s3_url"@ {
        match v {
            ParamValue::Text(s) => Ok(ConfigFields { s3_url: Some(s@), ..f }),
            _ => Ok(f),
        }
    } else if has_prefix(name, "property."@) {
        Ok(ConfigFields { properties: f.properties.insert(after_prefix(name, 9), param_json(v)), ..f })
    } else if has_prefix(name, "env."@) {
        match v {
            ParamValue::Text(s) => Ok(ConfigFields { env_vars: f.env_vars.insert(after_prefix(name, 4), s@), ..f }),
            _ => Ok(f),
        }
    } else if has_prefix(name, "service."@) {
        match v {
            ParamValue::Text(s) => Ok(ConfigFields { services: f.services.insert(after_prefix(name, 8), s@), ..f }),
            _ => Ok(f),
        }
    } else {
        Ok(f)
    }
}

/// The value given for a parameter: the first provided of its name.
pub open spec fn provided_value(provided: Seq<(String, ParamValue)>, name: Seq<char>) -> Option<ParamValue>
    decreases provided.len(),
{
    if provided.len() == 0 {
        None
    } else if provided[0].0@ == name {
        Some(provided[0].1)
    } else {
        provided_value(provided.drop_first(), name)
    }
}

/// The value a parameter takes: the provided one, else its default.
pub open spec fn value_for(p: TemplateParameter, provided: Seq<(String, ParamValue)>) -> Option<ParamValue> {
    match provided_value(provided, p.name@) {
        Some(v) => Some(v),
        None => p.default_value,
    }
}

/// The fields after applying the parameters in order; the first error
/// stops.
pub open spec fn apply_params(f: ConfigFields, params: Seq<TemplateParameter>, provided: Seq<(String, ParamValue)>) -> Result<
    ConfigFields,
    Seq<char>,
>
    decreases params.len(),
{
    if params.len() == 0 {
        Ok(f)
    } else {
        match apply_params(f, params.drop_last(), provided) {
            Err(e) => Err(e),
            Ok(g) => match value_for(params.last(), provided) {
                None => Ok(g),
                Some(v) => apply_param(g, params.last().name@, v),
            },
        }
    }
}

/// A copy of a parameter value.
pub fn copy_param(v: &ParamValue) -> (r: ParamValue)
    ensures
        r == *v,
{
    match v {
        ParamValue::Text(s) => ParamValue::Text(s.clone()),
        ParamValue::Bool(b) => ParamValue::Bool(*b),
        ParamValue::Other(t) => ParamValue::Other(t.clone()),
    }
}

/// Does `s` start with `prefix`?
fn starts_with(s: &str, prefix: &str) -> (b: bool)
    ensures
        b == has_prefix(s@, prefix@),
{
    let sv = crate::text::to_chars(s);
    let pv = crate::text::to_chars(prefix);
    if pv.len() > sv.len() {
        return false;
    }
    let mut i: usize = 0;
    while i < pv.len()
        invariant
            i <= pv.len() <= sv.len(),
            sv@ == s@,
            pv@ == prefix@,
            forall|j: int| 0 <= j < i ==> sv@[j] == pv@[j],
        decreases pv.len() - i,
    {
        if sv[i] != pv[i] {
            assert(s@.subrange(0, prefix@.len() as int)[i as int] != prefix@[i as int]);
            return false;
        }
        i += 1;
    }
    assert(s@.subrange(0, prefix@.len() as int) =~= prefix@);
    true
}

/// `s` without its first `n` characters.
fn drop_chars(s: &str, n: usize) -> (r: String)
    requires
        n <= s@.len(),
    ensures
        r@ == after_prefix(s@, n as nat),
{
    let len = s.unicode_len();
    s.substring_char(n, len).to_owned()
}

/// The first provided value of a name.
pub(crate) fn find_provided(provided: &Vec<(String, ParamValue)>, name: &str) -> (r: Option<ParamValue>)
    ensures
        r == provided_value(provided@, name@),
{
    let mut i: usize = 0;
    assert(provided@.subrange(0, provided.len() as int) =~= provided@);
    while i < provided.len()
        invariant
            i <= provided.len(),
            provided_value(provided@, name@) == provided_value(provided@.subrange(i as int, provided.len() as int), name@),
        decreases provided.len() - i,
    {
        let ghost rest = provided@.subrange(i as int, provided.len() as int);
        assert(rest.drop_first() =~= provided@.subrange(i + 1, provided.len() as int));
        if eq_str(provided[i].0.as_str(), name) {
            return Some(copy_param(&provided[i].1));
        }
        i += 1;
    }
    None
}

/// Sets one parameter on a configuration, as `apply_param` describes.
fn apply_one(c: EnvironmentConfig, name: &str, v: ParamValue) -> (r: Result<EnvironmentConfig, TestHarnessError>)
    ensures
        match apply_param(fields_of(c), name@, v) {
            Ok(f) => r matches Ok(c2) && fields_of(c2) == f && c2.id == c.id && same_fixed_fields(c2, c),
            Err(m) => r matches Err(TestHarnessError::ConfigurationError(x)) && x@ == m,
        },
{
    proof {
        reveal_strlit("env_type");
        reveal_strlit("name");
        reveal_strlit("description");
        reveal_strlit("base_dir");
        reveal_strlit("use_temp_dir");
        reveal_strlit("cleanup");
        reveal_strlit("database_url");
        reveal_strlit("redis_url");
        reveal_strlit("kafka_url");
        reveal_strlit("elasticsearch_url");
        reveal_strlit("s3_url");
        reveal_strlit("property.");
        reveal_strlit("env.");
        reveal_strlit("service.");
    }
    let mut c = c;
    if eq_str(name, "env_type") {
        if let ParamValue::Text(s) = &v {
            let t = if eq_str(s.as_str(), "local") {
                EnvironmentType::Local
            } else if eq_str(s.as_str(), "docker") {
                EnvironmentType::Docker
            } else if eq_str(s.as_str(), "kubernetes") {
                EnvironmentType::Kubernetes
            } else if eq_str(s.as_str(), "remote") {
                EnvironmentType::Remote
            } else {
                let mut m = "Invalid environment type: ".to_owned();
                m.append(s.as_str());
                return Err(config_error(m));
            };
            c.env_type = t;
        }
    } else if eq_str(name, "name") {
        if let ParamValue::Text(s) = v {
            c.name = s;
        }
    } else if eq_str(name, "description") {
        if let ParamValue::Text(s) = v {
            c.description = Some(s);
        }
    } else if eq_str(name, "base_dir") {
        if let ParamValue::Text(s) = v {
            c.base_dir = s;
        }
    } else if eq_str(name, "use_temp_dir") {
        if let ParamValue::Bool(b) = v {
            c.use_temp_dir = b;
        }
    } else if eq_str(name, "cleanup") {
        if let ParamValue::Bool(b) = v {
            c.cleanup = b;
        }
    } else if eq_str(name, "database_url") {
        if let ParamValue::Text(s) = v {
            c.database_url = Some(s);
        }
    } else if eq_str(name, "redis_url") {
        if let ParamValue::Text(s) = v {
            c.redis_url = Some(s);
        }
    } else if eq_str(name, "kafka_url") {
        if let ParamValue::Text(s) = v {
            c.kafka_url = Some(s);
        }
    } else if eq_str(name, "elasticsearch_url") {
        if let ParamValue::Text(s) = v {
            c.elasticsearch_url = Some(s);
        }
    } else if eq_str(name, "s3_url") {
        if let ParamValue::Text(s) = v {
            c.s3_url = Some(s);
        }
    } else if starts_with(name, "property.") {
        let key = drop_chars(name, 9);
        let text = param_json_text(&v);
        c.properties.insert(key, text);
    } else if starts_with(name, "env.") {
        if let ParamValue::Text(s) = v {
            let key = drop_chars(name, 4);
            c.env_vars.insert(key, s);
        }
    } else if starts_with(name, "service.") {
        if let ParamValue::Text(s) = v {
            let key = drop_chars(name, 8);
            c.services.insert(key, s);
        }
    }
    Ok(c)
}

/// A lower-case hexadecimal digit.
pub open spec fn lower_hex_digit(c: char) -> bool {
    ('0' <= c && c <= '9') || ('a' <= c && c <= 'f')
}

/// The hyphenated text of a version 4 UUID: 36 characters, hyphens at
/// positions 8, 13, 18 and 23 and lower-case hexadecimal digits elsewhere,
/// the version digit `4` at position 14 and one of `8`, `9`, `a`, `b` at
/// position 19.
pub open spec fn uuid_v4_text(s: Seq<char>) -> bool {
    &&& s.len() == 36
    &&& forall|i: int|
        0 <= i < 36 ==> if i == 8 || i == 13 || i == 18 || i == 23 {
            #[trigger] s[i] == '-'
        } else {
            lower_hex_digit(s[i])
        }
    &&& s[14] == '4'
    &&& (s[19] == '8' || s[19] == '9' || s[19] == 'a' || s[19] == 'b')
}

/// A fresh identifier from `uuid::Uuid::new_v4` in its `to_string` form.
/// `new_v4` masks random bits so that the version is 4 and the variant is
/// RFC 4122, and the text is the lower-case hyphenated form; which random
/// digits come out is left unsaid.
#[verifier::external_body]
pub(crate) fn new_uuid() -> (s: String)
    ensures
        uuid_v4_text(s@),
{
    uuid::Uuid::new_v4().to_string()
}

/// Applies the template's parameters, in order, to its base configuration:
/// each takes the first provided value of its name, else its default, and
/// is skipped without either; the first error stops. A configuration left
/// without an identifier gets a fresh one.
pub fn apply_parameters_to_config(
    base: EnvironmentConfig,
    params: &Vec<TemplateParameter>,
    provided: &Vec<(String, ParamValue)>,
) -> (r: Result<EnvironmentConfig, TestHarnessError>)
    ensures
        match apply_params(fields_of(base), params@, provided@) {
            Ok(f) => r matches Ok(c) && fields_of(c) == f && same_fixed_fields(c, base) && (base.id@.len() > 0 ==> c.id@
                == base.id@) && (base.id@.len() == 0 ==> uuid_v4_text(c.id@)),
            Err(m) => r matches Err(TestHarnessError::ConfigurationError(x)) && x@ == m,
        },
{
    let ghost start = fields_of(base);
    let ghost base_id = base.id@;
    let mut c = base;
    let mut i: usize = 0;
    while i < params.len()
        invariant
            i <= params.len(),
            start == fields_of(base),
            base_id == base.id@,
            c.id@ == base_id,
            same_fixed_fields(c, base),
            apply_params(start, params@.subrange(0, i as int), provided@) == Ok::<ConfigFields, Seq<char>>(fields_of(c)),
        decreases params.len() - i,
    {
        let p = &params[i];
        assert(params@.subrange(0, i + 1).drop_last() =~= params@.subrange(0, i as int));
        assert(params@.subrange(0, i + 1).last() == params@[i as int]);
        let value = match find_provided(provided, p.name.as_str()) {
            Some(v) => Some(v),
            None => match &p.default_value {
                Some(d) => Some(copy_param(d)),
                None => None,
            },
        };
        assert(value == value_for(params@[i as int], provided@));
        let ghost fc = fields_of(c);
        if let Some(v) = value {
            let ghost gv = v;
            assert(apply_params(start, params@.subrange(0, i + 1), provided@) == apply_param(fc, params@[i as int].name@, gv));
            match apply_one(c, p.name.as_str(), v) {
                Ok(c2) => {
                    c = c2;
                },
                Err(e) => {
                    proof {
                        lemma_apply_params_error_stays(start, params@, provided@, i as int);
                    }
                    assert(params@.subrange(0, params.len() as int) =~= params@);
                    return Err(e);
                },
            }
        }
        i += 1;
    }
    assert(params@.subrange(0, i as int) =~= params@);
    if c.id.as_str().unicode_len() == 0 {
        c.id = new_uuid();
    }
    Ok(c)
}

/// Once applying a prefix of the parameters fails, applying all of them
/// fails with the same error.
proof fn lemma_apply_params_error_stays(f: ConfigFields, params: Seq<TemplateParameter>, provided: Seq<(String, ParamValue)>, i: int)
    requires
        0 <= i < params.len(),
        apply_params(f, params.subrange(0, i + 1), provided) is Err,
    ensures
        apply_params(f, params, provided) == apply_params(f, params.subrange(0, i + 1), provided),
    decreases params.len() - i,
{
    if i + 1 < params.len() {
        assert(params.drop_last().subrange(0, i + 1) =~= params.subrange(0, i + 1));
        lemma_apply_params_error_stays(f, params.drop_last(), provided, i);
    } else {
        assert(params.subrange(0, i + 1) =~= params);
    }
}

} // verus!
