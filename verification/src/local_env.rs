//! The services of a local environment, as its settings describe them, and
//! the variables an environment runs with.

use vstd::prelude::*;
use crate::engine::copy_strings;
use crate::environment::LocalConfig;
use crate::kv::{eq_str, StrMap};
use crate::text::views;

verus! {

/// A service of a local environment.
#[derive(Debug)]
pub struct LocalService {
    pub name: String,
    /// The shell command that runs it.
    pub command: String,
    pub working_dir: Option<String>,
    pub env_vars: StrMap,
    pub port: Option<u16>,
    /// The process, once started.
    pub pid: Option<u32>,
    /// The name of its log file in the environment's log directory.
    pub log_file_name: String,
    pub health_check_command: Option<String>,
    pub health_check_url: Option<String>,
    /// The names of the services it needs running first.
    pub dependencies: Vec<String>,
}

/// The port listed first for a service.
pub open spec fn port_of(ports: Seq<(String, u16)>, name: Seq<char>) -> Option<u16>
    decreases ports.len(),
{
    if ports.len() == 0 {
        None
    } else if ports[0].0@ == name {
        Some(ports[0].1)
    } else {
        port_of(ports.drop_first(), name)
    }
}

/// The variables listed first for a service.
pub open spec fn env_of(envs: Seq<(String, StrMap)>, name: Seq<char>) -> Option<Map<Seq<char>, Seq<char>>>
    decreases envs.len(),
{
    if envs.len() == 0 {
        None
    } else if envs[0].0@ == name {
        Some(envs[0].1@)
    } else {
        env_of(envs.drop_first(), name)
    }
}

/// The dependencies listed first for a service.
pub open spec fn deps_of(deps: Seq<(String, Vec<String>)>, name: Seq<char>) -> Option<Seq<Seq<char>>>
    decreases deps.len(),
{
    if deps.len() == 0 {
        None
    } else if deps[0].0@ == name {
        Some(views(deps[0].1@))
    } else {
        deps_of(deps.drop_first(), name)
    }
}

/// The value of a key of a map, if it has one.
pub open spec fn lookup(m: Map<Seq<char>, Seq<char>>, k: Seq<char>) -> Option<Seq<char>> {
    if m.contains_key(k) {
        Some(m[k])
    } else {
        None
    }
}

/// An optional string by its characters.
pub open spec fn chars_of(s: Option<String>) -> Option<Seq<char>> {
    match s {
        Some(x) => Some(x@),
        None => None,
    }
}

/// `s` is the service called `name`, run by `command`, as `local`
/// describes it: its working directory, port, variables, health checks and
/// dependencies as listed for that name (no variables and no dependencies
/// when none are listed), not started, logging to `<name>.log`.
pub open spec fn describes(local: LocalConfig, name: Seq<char>, command: Seq<char>, s: LocalService) -> bool {
    &&& s.name@ == name
    &&& s.command@ == command
    &&& chars_of(s.working_dir) == lookup(local.service_working_dirs@, name)
    &&& s.env_vars@ == match env_of(local.service_env_vars@, name) {
        Some(m) => m,
        None => Map::empty(),
    }
    &&& s.port == port_of(local.service_ports@, name)
    &&& s.pid is None
    &&& s.log_file_name@ == name + ".log"@
    &&& chars_of(s.health_check_command) == lookup(local.service_health_check_commands@, name)
    &&& chars_of(s.health_check_url) == lookup(local.service_health_check_urls@, name)
    &&& views(s.dependencies@) == match deps_of(local.service_dependencies@, name) {
        Some(d) => d,
        None => Seq::empty(),
    }
}

fn find_port(ports: &Vec<(String, u16)>, name: &str) -> (r: Option<u16>)
    ensures
        r == port_of(ports@, name@),
{
    let mut i: usize = 0;
    assert(ports@.subrange(0, ports.len() as int) =~= ports@);
    while i < ports.len()
        invariant
            i <= ports.len(),
            port_of(ports@, name@) == port_of(ports@.subrange(i as int, ports.len() as int), name@),
        decreases ports.len() - i,
    {
        assert(ports@.subrange(i as int, ports.len() as int).drop_first() =~= ports@.subrange(i + 1, ports.len() as int));
        if eq_str(ports[i].0.as_str(), name) {
            return Some(ports[i].1);
        }
        i += 1;
    }
    None
}

fn find_env(envs: &Vec<(String, StrMap)>, name: &str) -> (r: StrMap)
    ensures
        r@ == match env_of(envs@, name@) {
            Some(m) => m,
            None => Map::empty(),
        },
{
    let mut i: usize = 0;
    assert(envs@.subrange(0, envs.len() as int) =~= envs@);
    while i < envs.len()
        invariant
            i <= envs.len(),
            env_of(envs@, name@) == env_of(envs@.subrange(i as int, envs.len() as int), name@),
        decreases envs.len() - i,
    {
        assert(envs@.subrange(i as int, envs.len() as int).drop_first() =~= envs@.subrange(i + 1, envs.len() as int));
        if eq_str(envs[i].0.as_str(), name) {
            return envs[i].1.copy();
        }
        i += 1;
    }
    StrMap::new()
}

fn find_deps(deps: &Vec<(String, Vec<String>)>, name: &str) -> (r: Vec<String>)
    ensures
        views(r@) == match deps_of(deps@, name@) {
            Some(d) => d,
            None => Seq::empty(),
        },
{
    let mut i: usize = 0;
    assert(deps@.subrange(0, deps.len() as int) =~= deps@);
    while i < deps.len()
        invariant
            i <= deps.len(),
            deps_of(deps@, name@) == deps_of(deps@.subrange(i as int, deps.len() as int), name@),
        decreases deps.len() - i,
    {
        assert(deps@.subrange(i as int, deps.len() as int).drop_first() =~= deps@.subrange(i + 1, deps.len() as int));
        if eq_str(deps[i].0.as_str(), name) {
            return copy_strings(&deps[i].1);
        }
        i += 1;
    }
    let r: Vec<String> = Vec::new();
    assert(views(r@) =~= Seq::<Seq<char>>::empty());
    r
}

fn lookup_string(m: &StrMap, key: &str) -> (r: Option<String>)
    ensures
        chars_of(r) == lookup(m@, key@),
{
    match m.get(key) {
        Some(v) => Some(v.clone()),
        None => None,
    }
}

/// The services of a local environment: one for each service with a
/// command, as `describes` tells, each name once.
pub fn local_services(local: &LocalConfig) -> (r: Vec<LocalService>)
    ensures
        forall|i: int| 0 <= i < r.len() ==> #[trigger] local.service_commands@.contains_key(r@[i].name@) && describes(
            *local,
            r@[i].name@,
            local.service_commands@[r@[i].name@],
            r@[i],
        ),
        forall|k: Seq<char>| #[trigger] local.service_commands@.contains_key(k) ==> exists|i: int|
            0 <= i < r.len() && r@[i].name@ == k,
        forall|i: int, j: int| 0 <= i < j < r.len() ==> r@[i].name@ != r@[j].name@,
{
    proof {
        reveal_strlit(".log");
    }
    let names = local.service_commands.keys();
    let mut r: Vec<LocalService> = Vec::new();
    let mut i: usize = 0;
    while i < names.len()
        invariant
            i <= names.len(),
            r.len() == i,
            forall|a: int| 0 <= a < names.len() ==> #[trigger] local.service_commands@.contains_key(names@[a]@),
            forall|k: Seq<char>| #[trigger] local.service_commands@.contains_key(k) ==> exists|a: int|
                0 <= a < names.len() && names@[a]@ == k,
            forall|a: int, b: int| 0 <= a < b < names.len() ==> names@[a]@ != names@[b]@,
            forall|a: int| 0 <= a < i ==> #[trigger] r@[a].name@ == names@[a]@,
            forall|a: int| 0 <= a < i ==> #[trigger] describes(
                *local,
                r@[a].name@,
                local.service_commands@[r@[a].name@],
                r@[a],
            ),
        decreases names.len() - i,
    {
        let name = names[i].as_str();
        assert(local.service_commands@.contains_key(names@[i as int]@));
        let command = match local.service_commands.get(name) {
            Some(c) => c.clone(),
            None => String::new(),
        };
        let mut log_file_name = name.to_owned();
        log_file_name.append(".log");
        let s = LocalService {
            name: names[i].clone(),
            command,
            working_dir: lookup_string(&local.service_working_dirs, name),
            env_vars: find_env(&local.service_env_vars, name),
            port: find_port(&local.service_ports, name),
            pid: None,
            log_file_name,
            health_check_command: lookup_string(&local.service_health_check_commands, name),
            health_check_url: lookup_string(&local.service_health_check_urls, name),
            dependencies: find_deps(&local.service_dependencies, name),
        };
        r.push(s);
        i += 1;
    }
    assert forall|k: Seq<char>| #[trigger] local.service_commands@.contains_key(k) implies exists|a: int|
        0 <= a < r.len() && r@[a].name@ == k by {
        let a = choose|a: int| 0 <= a < names.len() && names@[a]@ == k;
        assert(r@[a].name@ == names@[a]@);
    }
    r
}

/// The variables an environment runs with: those of its configuration,
/// with the variables of its kind's settings added and replacing them.
pub fn merged_env_vars(config_vars: &StrMap, kind_vars: &StrMap) -> (m: StrMap)
    ensures
        m@ == config_vars@.union_prefer_right(kind_vars@),
{
    let mut m = config_vars.copy();
    m.extend(kind_vars);
    m
}

} // verus!
