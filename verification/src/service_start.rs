//! The order in which local services start: a service's dependencies start
//! before it, each in the same way, and services that run already are left
//! alone.

use vstd::prelude::*;
use crate::model::TestHarnessError;
use crate::ordering::{find_last_index, lemma_resolve_bound, resolve, str_seq, str_seq_seq};

verus! {

/// Positions as integers.
pub open spec fn ints(v: Seq<usize>) -> Seq<int> {
    v.map_values(|x: usize| x as int)
}

/// What starting the service called `name` adds to the services `started`
/// so far, while the services on `stack` are being started around it: the
/// services started, in order; the first name that names no service, which
/// stops everything at once; and whether a dependency led back to a service
/// being started (the stack holds it already, or holds as many services as
/// there are), where starting would never end.
///
/// A service that runs already, or was started already, is left alone;
/// otherwise its dependencies start first, in their order, then the
/// service itself. A name stands for the last service of that name.
pub open spec fn start_visit(
    names: Seq<Seq<char>>,
    deps: Seq<Seq<Seq<char>>>,
    running: Seq<bool>,
    started: Seq<int>,
    stack: Seq<int>,
    name: Seq<char>,
) -> (Seq<int>, Option<Seq<char>>, bool)
    decreases names.len() - stack.len(), 0int, 0int,
{
    let v = resolve(names, name);
    if v < 0 {
        (started, Some(name), false)
    } else if running[v] || started.contains(v) {
        (started, None, false)
    } else if stack.contains(v) || stack.len() >= names.len() {
        (started, None, true)
    } else {
        let r = start_deps(names, deps, running, started, stack.push(v), v, 0);
        if r.1 is Some || r.2 {
            r
        } else {
            (r.0.push(v), None, false)
        }
    }
}

/// Starting the dependencies of service `v` from its `k`-th on, in order,
/// as `start_visit` describes; the first that stops stops the rest.
pub open spec fn start_deps(
    names: Seq<Seq<char>>,
    deps: Seq<Seq<Seq<char>>>,
    running: Seq<bool>,
    started: Seq<int>,
    stack: Seq<int>,
    v: int,
    k: int,
) -> (Seq<int>, Option<Seq<char>>, bool)
    decreases names.len() - stack.len(), 1int, deps[v].len() - k,
{
    if k < 0 || k >= deps[v].len() {
        (started, None, false)
    } else {
        let r = start_visit(names, deps, running, started, stack, deps[v][k]);
        if r.1 is Some || r.2 {
            r
        } else {
            start_deps(names, deps, running, r.0, stack, v, k + 1)
        }
    }
}

/// Does `v` hold `x`?
fn holds(v: &Vec<usize>, x: usize) -> (b: bool)
    ensures
        b == ints(v@).contains(x as int),
{
    let mut i: usize = 0;
    while i < v.len()
        invariant
            i <= v.len(),
            forall|j: int| 0 <= j < i ==> v@[j] != x,
        decreases v.len() - i,
    {
        if v[i] == x {
            assert(ints(v@)[i as int] == x as int);
            return true;
        }
        i += 1;
    }
    assert forall|j: int| 0 <= j < ints(v@).len() implies ints(v@)[j] != x as int by {
        assert(v@[j] != x);
    }
    false
}

/// `v` with `x` added at the end.
fn pushed(v: &Vec<usize>, x: usize) -> (r: Vec<usize>)
    ensures
        r@ == v@.push(x),
{
    let mut r: Vec<usize> = Vec::new();
    let mut i: usize = 0;
    while i < v.len()
        invariant
            i <= v.len(),
            r@ == v@.subrange(0, i as int),
        decreases v.len() - i,
    {
        r.push(v[i]);
        assert(r@ =~= v@.subrange(0, i + 1));
        i += 1;
    }
    assert(v@.subrange(0, i as int) =~= v@);
    r.push(x);
    r
}

fn visit(
    names: &Vec<String>,
    deps: &Vec<Vec<String>>,
    running: &Vec<bool>,
    started: Vec<usize>,
    stack: &Vec<usize>,
    name: &String,
) -> (r: (Vec<usize>, Option<String>, bool))
    requires
        deps.len() == names.len(),
        running.len() == names.len(),
    ensures
        (ints(r.0@), match r.1 { Some(m) => Some(m@), None => None }, r.2) == start_visit(
            str_seq(names@),
            str_seq_seq(deps@),
            running@,
            ints(started@),
            ints(stack@),
            name@,
        ),
    decreases names.len() - stack.len(), 0int, 0int,
{
    let ghost ns = str_seq(names@);
    match find_last_index(names, name) {
        None => (started, Some(name.clone()), false),
        Some(v) => {
            proof {
                lemma_resolve_bound(ns, name@);
            }
            if running[v] || holds(&started, v) {
                (started, None, false)
            } else if holds(stack, v) || stack.len() >= names.len() {
                (started, None, true)
            } else {
                let st2 = pushed(stack, v);
                assert(ints(st2@) =~= ints(stack@).push(v as int));
                let r = visit_deps(names, deps, running, started, &st2, v, 0);
                if r.1.is_some() || r.2 {
                    r
                } else {
                    let mut s = r.0;
                    let ghost before = s@;
                    s.push(v);
                    assert(ints(s@) =~= ints(before).push(v as int));
                    (s, None, false)
                }
            }
        },
    }
}

fn visit_deps(
    names: &Vec<String>,
    deps: &Vec<Vec<String>>,
    running: &Vec<bool>,
    started: Vec<usize>,
    stack: &Vec<usize>,
    v: usize,
    k: usize,
) -> (r: (Vec<usize>, Option<String>, bool))
    requires
        deps.len() == names.len(),
        running.len() == names.len(),
        v < deps.len(),
    ensures
        (ints(r.0@), match r.1 { Some(m) => Some(m@), None => None }, r.2) == start_deps(
            str_seq(names@),
            str_seq_seq(deps@),
            running@,
            ints(started@),
            ints(stack@),
            v as int,
            k as int,
        ),
    decreases names.len() - stack.len(), 1int, deps@[v as int].len() - k,
{
    assert(str_seq_seq(deps@)[v as int] == str_seq(deps@[v as int]@));
    if k >= deps[v].len() {
        (started, None, false)
    } else {
        assert(str_seq(deps@[v as int]@)[k as int] == deps@[v as int]@[k as int]@);
        let r = visit(names, deps, running, started, stack, &deps[v][k]);
        if r.1.is_some() || r.2 {
            r
        } else {
            visit_deps(names, deps, running, r.0, stack, v, k + 1)
        }
    }
}

/// The services to start for one service, in order, and what stops the
/// start, if anything.
#[derive(Debug)]
pub struct StartPlan {
    /// Positions of the services to start, in order.
    pub order: Vec<usize>,
    /// The error that follows those starts: a name that names no service.
    pub error: Option<TestHarnessError>,
}

/// Would starting the service called `target` follow a dependency back to
/// a service being started, so that it never ends?
pub fn start_would_loop(names: &Vec<String>, deps: &Vec<Vec<String>>, running: &Vec<bool>, target: &String) -> (b:
    bool)
    requires
        deps.len() == names.len(),
        running.len() == names.len(),
    ensures
        b == start_visit(str_seq(names@), str_seq_seq(deps@), running@, Seq::empty(), Seq::empty(), target@).2,
{
    let stack: Vec<usize> = Vec::new();
    assert(ints(stack@) =~= Seq::<int>::empty());
    let r = visit(names, deps, running, Vec::new(), &stack, target);
    r.2
}

/// The services that starting the service called `target` starts, in
/// order, as `start_visit` describes: `running[i]` tells whether service
/// `i` runs already. A name that names no service stops the start with
/// `Service <name> not found` once the services before it have started.
pub fn plan_service_start(names: &Vec<String>, deps: &Vec<Vec<String>>, running: &Vec<bool>, target: &String) -> (p:
    StartPlan)
    requires
        deps.len() == names.len(),
        running.len() == names.len(),
        !start_visit(str_seq(names@), str_seq_seq(deps@), running@, Seq::empty(), Seq::empty(), target@).2,
    ensures
        ints(p.order@) == start_visit(
            str_seq(names@),
            str_seq_seq(deps@),
            running@,
            Seq::empty(),
            Seq::empty(),
            target@,
        ).0,
        match start_visit(str_seq(names@), str_seq_seq(deps@), running@, Seq::empty(), Seq::empty(), target@).1 {
            Some(m) => p.error matches Some(TestHarnessError::EnvironmentError(e)) && e@ == "Service "@ + m
                + " not found"@,
            None => p.error is None,
        },
{
    let stack: Vec<usize> = Vec::new();
    let started: Vec<usize> = Vec::new();
    assert(ints(stack@) =~= Seq::<int>::empty());
    assert(ints(started@) =~= Seq::<int>::empty());
    let r = visit(names, deps, running, started, &stack, target);
    let error = match r.1 {
        Some(m) => {
            let mut e = "Service ".to_owned();
            e.append(m.as_str());
            e.append(" not found");
            Some(TestHarnessError::EnvironmentError(e))
        },
        None => None,
    };
    StartPlan { order: r.0, error }
}

/// Every dependency of the service at position `p` of `order` names a
/// service that runs already or stands earlier in `order`.
pub open spec fn deps_met(
    names: Seq<Seq<char>>,
    deps: Seq<Seq<Seq<char>>>,
    running: Seq<bool>,
    order: Seq<int>,
    p: int,
) -> bool {
    forall|k: int|
        0 <= k < deps[order[p]].len() ==> {
            let w = #[trigger] resolve(names, deps[order[p]][k]);
            w >= 0 && (running[w] || exists|q: int| 0 <= q < p && order[q] == w)
        }
}

/// Service `w` runs already or is in `order`.
pub open spec fn available(running: Seq<bool>, order: Seq<int>, w: int) -> bool {
    running[w] || order.contains(w)
}

/// `r` begins with `s`.
pub open spec fn extends(r: Seq<int>, s: Seq<int>) -> bool {
    r.len() >= s.len() && r.subrange(0, s.len() as int) == s
}

/// What a start that stopped at nothing keeps true: it only appends to the
/// services started; each appended service runs not, is not being started
/// around it, and comes after its dependencies; and no service is started
/// twice.
pub open spec fn start_sound(
    names: Seq<Seq<char>>,
    deps: Seq<Seq<Seq<char>>>,
    running: Seq<bool>,
    started: Seq<int>,
    stack: Seq<int>,
    r: Seq<int>,
) -> bool {
    &&& extends(r, started)
    &&& forall|p: int|
        started.len() <= p < r.len() ==> !stack.contains(#[trigger] r[p]) && !running[r[p]] && 0 <= r[p] < names.len()
            && deps_met(names, deps, running, r, p)
    &&& started.no_duplicates() ==> r.no_duplicates()
}

proof fn lemma_deps_met_extend(
    names: Seq<Seq<char>>,
    deps: Seq<Seq<Seq<char>>>,
    running: Seq<bool>,
    a: Seq<int>,
    b: Seq<int>,
    p: int,
)
    requires
        extends(b, a),
        0 <= p < a.len(),
        deps_met(names, deps, running, a, p),
    ensures
        deps_met(names, deps, running, b, p),
{
    assert(b[p] == a[p]) by {
        assert(b.subrange(0, a.len() as int)[p] == b[p]);
    }
    assert forall|k: int| 0 <= k < deps[b[p]].len() implies {
        let w = #[trigger] resolve(names, deps[b[p]][k]);
        w >= 0 && (running[w] || exists|q: int| 0 <= q < p && b[q] == w)
    } by {
        let w = resolve(names, deps[a[p]][k]);
        if !running[w] {
            let q = choose|q: int| 0 <= q < p && a[q] == w;
            assert(b.subrange(0, a.len() as int)[q] == b[q]);
        }
    }
}

proof fn lemma_extends_trans(a: Seq<int>, b: Seq<int>, c: Seq<int>)
    requires
        extends(b, a),
        extends(c, b),
    ensures
        extends(c, a),
{
    assert(c.subrange(0, a.len() as int) =~= b.subrange(0, a.len() as int)) by {
        assert forall|i: int| 0 <= i < a.len() implies c[i] == b[i] by {
            assert(c.subrange(0, b.len() as int)[i] == c[i]);
        }
    }
}

proof fn lemma_visit_sound(
    names: Seq<Seq<char>>,
    deps: Seq<Seq<Seq<char>>>,
    running: Seq<bool>,
    started: Seq<int>,
    stack: Seq<int>,
    name: Seq<char>,
)
    requires
        ({
            let r = start_visit(names, deps, running, started, stack, name);
            r.1 is None && !r.2
        }),
    ensures
        ({
            let r = start_visit(names, deps, running, started, stack, name);
            let v = resolve(names, name);
            &&& start_sound(names, deps, running, started, stack, r.0)
            &&& v >= 0
            &&& available(running, r.0, v)
        }),
    decreases names.len() - stack.len(), 0int, 0int,
{
    let v = resolve(names, name);
    let r = start_visit(names, deps, running, started, stack, name);
    assert(started.subrange(0, started.len() as int) =~= started);
    if running[v] || started.contains(v) {
    } else {
        let st = stack.push(v);
        let r1 = start_deps(names, deps, running, started, st, v, 0);
        lemma_deps_sound(names, deps, running, started, st, v, 0);
        lemma_resolve_bound(names, name);
        assert(r.0 == r1.0.push(v));
        assert(extends(r.0, r1.0)) by {
            assert(r.0.subrange(0, r1.0.len() as int) =~= r1.0);
        }
        lemma_extends_trans(started, r1.0, r.0);
        assert forall|p: int| started.len() <= p < r.0.len() implies !stack.contains(#[trigger] r.0[p])
            && !running[r.0[p]] && 0 <= r.0[p] < names.len() && deps_met(names, deps, running, r.0, p) by {
            if p < r1.0.len() {
                assert(r.0[p] == r1.0[p]);
                assert(!st.contains(r1.0[p]));
                if stack.contains(r1.0[p]) {
                    let i = choose|i: int| 0 <= i < stack.len() && stack[i] == r1.0[p];
                    assert(st[i] == stack[i]);
                }
                lemma_deps_met_extend(names, deps, running, r1.0, r.0, p);
            } else {
                assert(r.0[p] == v);
                assert forall|k: int| 0 <= k < deps[r.0[p]].len() implies {
                    let w = #[trigger] resolve(names, deps[r.0[p]][k]);
                    w >= 0 && (running[w] || exists|q: int| 0 <= q < p && r.0[q] == w)
                } by {
                    let w = resolve(names, deps[v][k]);
                    if !running[w] {
                        assert(r1.0.contains(w));
                        let q = choose|q: int| 0 <= q < r1.0.len() && r1.0[q] == w;
                        assert(r.0[q] == w);
                    }
                }
            }
        }
        if started.no_duplicates() {
            assert(r1.0.no_duplicates());
            assert(!r1.0.contains(v)) by {
                if r1.0.contains(v) {
                    let q = choose|q: int| 0 <= q < r1.0.len() && r1.0[q] == v;
                    if q < started.len() {
                        assert(r1.0.subrange(0, started.len() as int)[q] == r1.0[q]);
                        assert(started.contains(v));
                    } else {
                        assert(!st.contains(r1.0[q]));
                        assert(st[stack.len() as int] == v);
                    }
                }
            }
            assert(r.0.no_duplicates()) by {
                assert forall|i: int, j: int| 0 <= i < j < r.0.len() implies r.0[i] != r.0[j] by {
                    if j == r.0.len() - 1 {
                        assert(r.0[j] == v);
                        assert(r.0[i] == r1.0[i]);
                    } else {
                        assert(r.0[i] == r1.0[i]);
                        assert(r.0[j] == r1.0[j]);
                    }
                }
            }
        }
        assert(r.0[r.0.len() - 1] == v);
    }
}

proof fn lemma_deps_sound(
    names: Seq<Seq<char>>,
    deps: Seq<Seq<Seq<char>>>,
    running: Seq<bool>,
    started: Seq<int>,
    stack: Seq<int>,
    v: int,
    k: int,
)
    requires
        ({
            let r = start_deps(names, deps, running, started, stack, v, k);
            r.1 is None && !r.2
        }),
        0 <= k,
    ensures
        ({
            let r = start_deps(names, deps, running, started, stack, v, k);
            &&& start_sound(names, deps, running, started, stack, r.0)
            &&& forall|j: int|
                k <= j < deps[v].len() ==> #[trigger] resolve(names, deps[v][j]) >= 0 && available(
                    running,
                    r.0,
                    resolve(names, deps[v][j]),
                )
        }),
    decreases names.len() - stack.len(), 1int, deps[v].len() - k,
{
    let r = start_deps(names, deps, running, started, stack, v, k);
    assert(started.subrange(0, started.len() as int) =~= started);
    if k >= deps[v].len() {
    } else {
        let r1 = start_visit(names, deps, running, started, stack, deps[v][k]);
        lemma_visit_sound(names, deps, running, started, stack, deps[v][k]);
        lemma_deps_sound(names, deps, running, r1.0, stack, v, k + 1);
        lemma_extends_trans(started, r1.0, r.0);
        assert forall|p: int| started.len() <= p < r.0.len() implies !stack.contains(#[trigger] r.0[p])
            && !running[r.0[p]] && 0 <= r.0[p] < names.len() && deps_met(names, deps, running, r.0, p) by {
            if p < r1.0.len() {
                assert(r.0.subrange(0, r1.0.len() as int)[p] == r.0[p]);
                lemma_deps_met_extend(names, deps, running, r1.0, r.0, p);
            }
        }
        assert forall|j: int| k <= j < deps[v].len() implies #[trigger] resolve(names, deps[v][j]) >= 0
            && available(running, r.0, resolve(names, deps[v][j])) by {
            if j == k {
                let w = resolve(names, deps[v][k]);
                if !running[w] {
                    let q = choose|q: int| 0 <= q < r1.0.len() && r1.0[q] == w;
                    assert(r.0.subrange(0, r1.0.len() as int)[q] == r.0[q]);
                    assert(r.0[q] == w);
                }
            }
        }
    }
}

/// Law: a start that stops at nothing starts each service at most once,
/// never one that runs already, every service after the services it
/// depends on, and leaves the requested service running or started.
pub proof fn lemma_start_plan_sound(
    names: Seq<Seq<char>>,
    deps: Seq<Seq<Seq<char>>>,
    running: Seq<bool>,
    target: Seq<char>,
)
    requires
        ({
            let r = start_visit(names, deps, running, Seq::empty(), Seq::empty(), target);
            r.1 is None && !r.2
        }),
    ensures
        ({
            let r = start_visit(names, deps, running, Seq::empty(), Seq::empty(), target);
            &&& r.0.no_duplicates()
            &&& forall|p: int| 0 <= p < r.0.len() ==> !running[#[trigger] r.0[p]] && 0 <= r.0[p] < names.len()
            &&& forall|p: int| 0 <= p < r.0.len() ==> #[trigger] deps_met(names, deps, running, r.0, p)
            &&& resolve(names, target) >= 0
            &&& available(running, r.0, resolve(names, target))
        }),
{
    lemma_visit_sound(names, deps, running, Seq::empty(), Seq::empty(), target);
    let r = start_visit(names, deps, running, Seq::empty(), Seq::empty(), target);
    assert forall|p: int| 0 <= p < r.0.len() implies !running[#[trigger] r.0[p]] && 0 <= r.0[p] < names.len() by {
        assert(!Seq::<int>::empty().contains(r.0[p]));
    }
}

} // verus!
