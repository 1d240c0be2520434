//! Snapshots of a local environment: its state and variables, and its
//! services, kept by name, to be restored later.

use vstd::prelude::*;
use crate::kv::{eq_str, StrMap};
use crate::local_env::LocalService;
use crate::model::TestHarnessError;
use crate::text::views;

verus! {

/// A service as a snapshot keeps it.
#[derive(Debug)]
pub struct LocalServiceSnapshot {
    pub name: String,
    pub command: String,
    pub working_dir: Option<String>,
    pub env_vars: StrMap,
    pub port: Option<u16>,
    pub log_file_name: String,
}

/// A snapshot of a local environment.
#[derive(Debug)]
pub struct LocalSnapshot {
    pub name: String,
    /// Milliseconds since the Unix epoch.
    pub timestamp: i64,
    /// The environment's state, each value by its JSON text.
    pub state: StrMap,
    pub env_vars: StrMap,
    pub services: Vec<LocalServiceSnapshot>,
}

/// What a snapshot holds, as the store's contracts read it.
pub struct SnapshotView {
    pub timestamp: i64,
    pub state: Map<Seq<char>, Seq<char>>,
    pub env_vars: Map<Seq<char>, Seq<char>>,
    pub services: Seq<Seq<char>>,
}

/// The names of a snapshot's services.
pub open spec fn service_names(s: Seq<LocalServiceSnapshot>) -> Seq<Seq<char>> {
    s.map_values(|x: LocalServiceSnapshot| x.name@)
}

/// What a snapshot holds.
pub open spec fn snapshot_view(s: LocalSnapshot) -> SnapshotView {
    SnapshotView { timestamp: s.timestamp, state: s.state@, env_vars: s.env_vars@, services: service_names(s.services@) }
}

/// Some snapshot has this name.
pub open spec fn has_snapshot(ss: Seq<LocalSnapshot>, name: Seq<char>) -> bool {
    exists|i: int| 0 <= i < ss.len() && ss[i].name@ == name
}

/// The position of the snapshot of this name.
pub open spec fn snapshot_index(ss: Seq<LocalSnapshot>, name: Seq<char>) -> int {
    choose|i: int| 0 <= i < ss.len() && ss[i].name@ == name
}

/// No two snapshots have the same name.
pub open spec fn distinct_snapshot_names(ss: Seq<LocalSnapshot>) -> bool {
    forall|i: int, j: int| 0 <= i < j < ss.len() ==> ss[i].name@ != ss[j].name@
}

/// The snapshots by name.
pub open spec fn snapshot_map(ss: Seq<LocalSnapshot>) -> Map<Seq<char>, SnapshotView> {
    Map::new(|k: Seq<char>| has_snapshot(ss, k), |k: Seq<char>| snapshot_view(ss[snapshot_index(ss, k)]))
}

/// The snapshots of a local environment, by name.
#[derive(Debug)]
pub struct SnapshotStore {
    snapshots: Vec<LocalSnapshot>,
}

impl View for SnapshotStore {
    type V = Map<Seq<char>, SnapshotView>;

    closed spec fn view(&self) -> Map<Seq<char>, SnapshotView> {
        snapshot_map(self.snapshots@)
    }
}

/// With distinct names, the snapshot of a name is the one at the position
/// that has it.
proof fn lemma_index_unique(ss: Seq<LocalSnapshot>, i: int)
    requires
        distinct_snapshot_names(ss),
        0 <= i < ss.len(),
    ensures
        has_snapshot(ss, ss[i].name@),
        snapshot_index(ss, ss[i].name@) == i,
{
    assert(has_snapshot(ss, ss[i].name@));
    let j = snapshot_index(ss, ss[i].name@);
    if j != i {
        if j < i {
            assert(ss[j].name@ != ss[i].name@);
        } else {
            assert(ss[i].name@ != ss[j].name@);
        }
    }
}

fn copy_services(services: &Vec<LocalService>) -> (r: Vec<LocalServiceSnapshot>)
    ensures
        service_names(r@) == views(services@.map_values(|s: LocalService| s.name)),
{
    let mut r: Vec<LocalServiceSnapshot> = Vec::new();
    let mut i: usize = 0;
    while i < services.len()
        invariant
            i <= services.len(),
            service_names(r@) == views(services@.map_values(|s: LocalService| s.name)).subrange(0, i as int),
        decreases services.len() - i,
    {
        let s = &services[i];
        let ghost before = service_names(r@);
        let name = s.name.clone();
        r.push(
            LocalServiceSnapshot {
                name,
                command: s.command.clone(),
                working_dir: s.working_dir.clone(),
                env_vars: s.env_vars.copy(),
                port: s.port,
                log_file_name: s.log_file_name.clone(),
            },
        );
        assert(service_names(r@) =~= before.push(services@[i as int].name@));
        assert(views(services@.map_values(|s: LocalService| s.name)).subrange(0, i + 1) =~= before.push(
            services@[i as int].name@,
        ));
        i += 1;
    }
    assert(views(services@.map_values(|s: LocalService| s.name)).subrange(0, i as int) =~= views(
        services@.map_values(|s: LocalService| s.name),
    ));
    r
}

/// The position of the snapshot of this name.
fn position_of(ss: &Vec<LocalSnapshot>, name: &str) -> (r: Option<usize>)
    ensures
        match r {
            Some(i) => i < ss.len() && ss@[i as int].name@ == name@,
            None => !has_snapshot(ss@, name@),
        },
{
    let mut i: usize = 0;
    while i < ss.len()
        invariant
            i <= ss.len(),
            forall|j: int| 0 <= j < i ==> ss@[j].name@ != name@,
        decreases ss.len() - i,
    {
        if eq_str(ss[i].name.as_str(), name) {
            return Some(i);
        }
        i += 1;
    }
    None
}

impl SnapshotStore {
    #[verifier::type_invariant]
    closed spec fn inv(&self) -> bool {
        distinct_snapshot_names(self.snapshots@)
    }

    /// No snapshots.
    pub fn new() -> (s: SnapshotStore)
        ensures
            s@ == Map::<Seq<char>, SnapshotView>::empty(),
    {
        let s = SnapshotStore { snapshots: Vec::new() };
        assert(s@ =~= Map::<Seq<char>, SnapshotView>::empty());
        s
    }

    /// Takes a snapshot of this name at `now`, of the state, variables and
    /// services given; one of the same name is replaced.
    pub fn take(&mut self, name: String, state: &StrMap, env_vars: &StrMap, services: &Vec<LocalService>, now: i64)
        ensures
            final(self)@ == old(self)@.insert(
                name@,
                SnapshotView {
                    timestamp: now,
                    state: state@,
                    env_vars: env_vars@,
                    services: views(services@.map_values(|s: LocalService| s.name)),
                },
            ),
    {
        proof {
            use_type_invariant(&*self);
        }
        let snap = LocalSnapshot {
            name: name.clone(),
            timestamp: now,
            state: state.copy(),
            env_vars: env_vars.copy(),
            services: copy_services(services),
        };
        let ghost v = snapshot_view(snap);
        let ghost old_ss = self.snapshots@;
        let mut snapshots: Vec<LocalSnapshot> = Vec::new();
        std::mem::swap(&mut snapshots, &mut self.snapshots);
        match position_of(&snapshots, name.as_str()) {
            Some(i) => {
                snapshots.set(i, snap);
                let ghost ss = snapshots@;
                proof {
                    assert(ss == old_ss.update(i as int, snap));
                    assert(distinct_snapshot_names(ss)) by {
                        assert forall|a: int, b: int| 0 <= a < b < ss.len() implies ss[a].name@ != ss[b].name@ by {
                            assert(old_ss[a].name@ != old_ss[b].name@);
                            if a == i {
                                assert(ss[a].name@ == old_ss[a].name@);
                            }
                            if b == i {
                                assert(ss[b].name@ == old_ss[b].name@);
                            }
                        }
                    }
                    assert forall|k: Seq<char>| #[trigger] snapshot_map(ss).contains_key(k) == snapshot_map(
                        old_ss,
                    ).insert(name@, v).contains_key(k) by {
                        if has_snapshot(old_ss, k) {
                            let j = choose|j: int| 0 <= j < old_ss.len() && old_ss[j].name@ == k;
                            if j == i {
                                assert(ss[j].name@ == k);
                            } else {
                                assert(ss[j] == old_ss[j]);
                            }
                        }
                        if has_snapshot(ss, k) {
                            let j = choose|j: int| 0 <= j < ss.len() && ss[j].name@ == k;
                            if j != i {
                                assert(ss[j] == old_ss[j]);
                            }
                        }
                        if k == name@ {
                            assert(ss[i as int].name@ == k);
                        }
                    }
                    assert forall|k: Seq<char>| #[trigger] snapshot_map(ss).contains_key(k) implies snapshot_map(ss)[k]
                        == snapshot_map(old_ss).insert(name@, v)[k] by {
                        let j = choose|j: int| 0 <= j < ss.len() && ss[j].name@ == k;
                        lemma_index_unique(ss, j);
                        if j == i {
                            assert(k == name@);
                        } else {
                            assert(ss[j] == old_ss[j]);
                            lemma_index_unique(old_ss, j);
                        }
                    }
                    assert(snapshot_map(ss) =~= snapshot_map(old_ss).insert(name@, v));
                }
            },
            None => {
                snapshots.push(snap);
                let ghost ss = snapshots@;
                proof {
                    assert(ss == old_ss.push(snap));
                    assert(distinct_snapshot_names(ss)) by {
                        assert forall|a: int, b: int| 0 <= a < b < ss.len() implies ss[a].name@ != ss[b].name@ by {
                            if b == old_ss.len() {
                                assert(ss[a] == old_ss[a]);
                            } else {
                                assert(old_ss[a].name@ != old_ss[b].name@);
                            }
                        }
                    }
                    assert forall|k: Seq<char>| #[trigger] snapshot_map(ss).contains_key(k) == snapshot_map(
                        old_ss,
                    ).insert(name@, v).contains_key(k) by {
                        if has_snapshot(old_ss, k) {
                            let j = choose|j: int| 0 <= j < old_ss.len() && old_ss[j].name@ == k;
                            assert(ss[j] == old_ss[j]);
                        }
                        if has_snapshot(ss, k) {
                            let j = choose|j: int| 0 <= j < ss.len() && ss[j].name@ == k;
                            if j < old_ss.len() {
                                assert(ss[j] == old_ss[j]);
                            }
                        }
                        if k == name@ {
                            assert(ss[old_ss.len() as int].name@ == k);
                        }
                    }
                    assert forall|k: Seq<char>| #[trigger] snapshot_map(ss).contains_key(k) implies snapshot_map(ss)[k]
                        == snapshot_map(old_ss).insert(name@, v)[k] by {
                        let j = choose|j: int| 0 <= j < ss.len() && ss[j].name@ == k;
                        lemma_index_unique(ss, j);
                        if j < old_ss.len() {
                            assert(ss[j] == old_ss[j]);
                            lemma_index_unique(old_ss, j);
                        } else {
                            assert(k == name@);
                        }
                    }
                    assert(snapshot_map(ss) =~= snapshot_map(old_ss).insert(name@, v));
                }
            },
        }
        self.snapshots = snapshots;
    }

    /// The state and variables of the snapshot of this name; an error when
    /// there is none.
    pub fn restore(&self, name: &str) -> (r: Result<(StrMap, StrMap), TestHarnessError>)
        ensures
            self@.contains_key(name@) ==> (r matches Ok((state, env_vars)) && state@ == self@[name@].state
                && env_vars@ == self@[name@].env_vars),
            !self@.contains_key(name@) ==> (r matches Err(TestHarnessError::EnvironmentError(m)) && m@ == "Snapshot "@
                + name@ + " not found"@),
    {
        proof {
            use_type_invariant(self);
        }
        match position_of(&self.snapshots, name) {
            Some(i) => {
                proof {
                    lemma_index_unique(self.snapshots@, i as int);
                }
                let s = &self.snapshots[i];
                Ok((s.state.copy(), s.env_vars.copy()))
            },
            None => {
                let mut m = "Snapshot ".to_owned();
                m.append(name);
                m.append(" not found");
                Err(TestHarnessError::EnvironmentError(m))
            },
        }
    }

    /// The names of the snapshots, each once.
    pub fn names(&self) -> (r: Vec<String>)
        ensures
            forall|k: Seq<char>| self@.contains_key(k) <==> views(r@).contains(k),
            r.len() == self@.dom().len(),
    {
        proof {
            use_type_invariant(self);
        }
        let mut r: Vec<String> = Vec::new();
        let mut i: usize = 0;
        while i < self.snapshots.len()
            invariant
                i <= self.snapshots.len(),
                distinct_snapshot_names(self.snapshots@),
                views(r@) == self.snapshots@.subrange(0, i as int).map_values(|s: LocalSnapshot| s.name@),
            decreases self.snapshots.len() - i,
        {
            let ghost before = views(r@);
            r.push(self.snapshots[i].name.clone());
            assert(views(r@) =~= before.push(self.snapshots@[i as int].name@));
            assert(self.snapshots@.subrange(0, i + 1).map_values(|s: LocalSnapshot| s.name@) =~= before.push(
                self.snapshots@[i as int].name@,
            ));
            i += 1;
        }
        let ghost ss = self.snapshots@;
        let ghost names = ss.map_values(|s: LocalSnapshot| s.name@);
        proof {
            assert(ss.subrange(0, i as int) =~= ss);
            assert forall|k: Seq<char>| self@.contains_key(k) <==> views(r@).contains(k) by {
                if has_snapshot(ss, k) {
                    let j = choose|j: int| 0 <= j < ss.len() && ss[j].name@ == k;
                    assert(names[j] == k);
                }
                if names.contains(k) {
                    let j = choose|j: int| 0 <= j < names.len() && names[j] == k;
                    assert(ss[j].name@ == k);
                }
            }
            assert(names.no_duplicates()) by {
                assert forall|a: int, b: int| 0 <= a < names.len() && 0 <= b < names.len() && a != b implies names[a]
                    != names[b] by {
                    if a < b {
                        assert(ss[a].name@ != ss[b].name@);
                    } else {
                        assert(ss[b].name@ != ss[a].name@);
                    }
                }
            }
            assert(self@.dom() =~= names.to_set());
            names.unique_seq_to_set();
        }
        r
    }
}

/// Law: restoring a snapshot gives back the state and variables it was
/// taken with.
pub proof fn lemma_restore_after_take(
    before: Map<Seq<char>, SnapshotView>,
    name: Seq<char>,
    v: SnapshotView,
    after: Map<Seq<char>, SnapshotView>,
)
    requires
        after == before.insert(name, v),
    ensures
        after.contains_key(name),
        after[name].state == v.state,
        after[name].env_vars == v.env_vars,
        forall|k: Seq<char>| k != name ==> (after.contains_key(k) == before.contains_key(k)) && (before.contains_key(k)
            ==> after[k] == before[k]),
{
}

} // verus!
