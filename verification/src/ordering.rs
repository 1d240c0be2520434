//! Dependency ordering: resolves dependency names to items, orders items so
//! that every item runs after the items it depends on, and groups an order
//! into dependency levels sorted by priority.

use vstd::prelude::*;

verus! {

/// A list of strings viewed as a sequence of character sequences.
pub open spec fn str_seq(v: Seq<String>) -> Seq<Seq<char>> {
    v.map_values(|s: String| s@)
}

/// A list of string lists viewed as nested character sequences.
pub open spec fn str_seq_seq(v: Seq<Vec<String>>) -> Seq<Seq<Seq<char>>> {
    v.map_values(|w: Vec<String>| str_seq(w@))
}

/// The index of the last item called `d`, or -1 when no item has that name
/// (a later item with the same name replaces an earlier one).
pub open spec fn resolve(names: Seq<Seq<char>>, d: Seq<char>) -> int
    decreases names.len(),
{
    if names.len() == 0 {
        -1
    } else if names.last() == d {
        names.len() - 1
    } else {
        resolve(names.drop_last(), d)
    }
}

/// Dependency `k` of item `i` names an existing item.
pub open spec fn known(names: Seq<Seq<char>>, deps: Seq<Seq<Seq<char>>>, i: int, k: int) -> bool {
    resolve(names, deps[i][k]) >= 0
}

/// Every dependency of every item names an existing item.
pub open spec fn all_known(names: Seq<Seq<char>>, deps: Seq<Seq<Seq<char>>>) -> bool {
    forall|i: int, k: int|
        0 <= i < deps.len() && 0 <= k < deps[i].len() ==> #[trigger] known(names, deps, i, k)
}

/// Dependency `k` of item `i` is the first unknown one, items and their
/// dependencies taken in declaration order.
pub open spec fn first_unknown(
    names: Seq<Seq<char>>,
    deps: Seq<Seq<Seq<char>>>,
    i: int,
    k: int,
) -> bool {
    &&& 0 <= i < deps.len()
    &&& 0 <= k < deps[i].len()
    &&& !known(names, deps, i, k)
    &&& forall|i2: int, k2: int|
        0 <= i2 < deps.len() && 0 <= k2 < deps[i2].len() && (i2 < i || (i2 == i && k2 < k))
            ==> #[trigger] known(names, deps, i2, k2)
}

/// The items resolved from the dependency names of every item.
pub open spec fn sources(names: Seq<Seq<char>>, deps: Seq<Seq<Seq<char>>>) -> Seq<Seq<int>> {
    deps.map_values(|ds: Seq<Seq<char>>| ds.map_values(|d: Seq<char>| resolve(names, d)))
}

/// `order` lists each of the `n` items once, and every source of the item
/// at each position stands at an earlier position.
pub open spec fn is_order_of(srcs: Seq<Seq<int>>, order: Seq<usize>) -> bool {
    &&& order.len() == srcs.len()
    &&& order.no_duplicates()
    &&& forall|q: int| 0 <= q < order.len() ==> order[q] < srcs.len()
    &&& forall|q: int, k: int|
        0 <= q < order.len() && 0 <= k < srcs[order[q] as int].len() ==> placed_before(
            order,
            q,
            #[trigger] srcs[order[q] as int][k],
        )
}

/// Item `v` stands at one of the first `q` positions of `order`.
pub open spec fn placed_before(order: Seq<usize>, q: int, v: int) -> bool {
    exists|p: int| 0 <= p < q && order[p] as int == v
}

/// `order` is a topological order of the items: each item once, after all
/// the items it depends on.
pub open spec fn is_topological_order(
    names: Seq<Seq<char>>,
    deps: Seq<Seq<Seq<char>>>,
    order: Seq<usize>,
) -> bool {
    is_order_of(sources(names, deps), order)
}

/// Some topological order of the items exists (the dependencies have no cycle).
pub open spec fn has_topological_order(names: Seq<Seq<char>>, deps: Seq<Seq<Seq<char>>>) -> bool {
    exists|order: Seq<usize>| is_topological_order(names, deps, order)
}

/// Why no dependency order could be produced.
#[derive(Debug, Clone, Copy, PartialEq, Eq, Structural)]
pub enum DependencyError {
    /// Dependency number `dependency` of item number `item` names no item.
    UnknownDependency { item: usize, dependency: usize },
    /// The dependencies form a cycle.
    Cycle,
}

/// A duplicate-free sequence of values below `n` has at most `n` elements.
pub proof fn lemma_distinct_len_le(s: Seq<usize>, n: nat)
    requires
        s.no_duplicates(),
        forall|i: int| 0 <= i < s.len() ==> s[i] < n,
    ensures
        s.len() <= n,
    decreases n,
{
    if n == 0 {
        if s.len() > 0 {
            assert(s[0] < 0);
        }
    } else {
        let top = (n - 1) as usize;
        if s.contains(top) {
            let p = choose|p: int| 0 <= p < s.len() && s[p] == top;
            let t = s.remove(p);
            assert forall|i: int| 0 <= i < t.len() implies t[i] < n - 1 by {
                if i < p {
                    assert(t[i] == s[i]);
                } else {
                    assert(t[i] == s[i + 1]);
                }
            }
            assert forall|i: int, j: int| 0 <= i < t.len() && 0 <= j < t.len() && i != j implies t[i]
                != t[j] by {
                let si = if i < p { i } else { i + 1 };
                let sj = if j < p { j } else { j + 1 };
                assert(t[i] == s[si]);
                assert(t[j] == s[sj]);
            }
            lemma_distinct_len_le(t, (n - 1) as nat);
        } else {
            assert forall|i: int| 0 <= i < s.len() implies s[i] < n - 1 by {
                if s[i] == top {
                    assert(s.contains(top));
                }
            }
            lemma_distinct_len_le(s, (n - 1) as nat);
        }
    }
}

/// A duplicate-free sequence of `n` values below `n` holds every value below `n`.
pub proof fn lemma_distinct_full(s: Seq<usize>, n: nat, x: usize)
    requires
        s.no_duplicates(),
        forall|i: int| 0 <= i < s.len() ==> s[i] < n,
        s.len() == n,
        x < n,
    ensures
        s.contains(x),
{
    if !s.contains(x) {
        let t = s.map_values(|v: usize| if v > x { (v - 1) as usize } else { v });
        assert forall|i: int| 0 <= i < t.len() implies t[i] < n - 1 by {
            if s[i] == x {
                assert(s.contains(x));
            }
        }
        assert forall|i: int, j: int| 0 <= i < t.len() && 0 <= j < t.len() && i != j implies t[i]
            != t[j] by {
            if s[i] == x {
                assert(s.contains(x));
            }
            if s[j] == x {
                assert(s.contains(x));
            }
        }
        lemma_distinct_len_le(t, (n - 1) as nat);
    }
}

/// If some position satisfies `p`, a least such position exists.
proof fn lemma_least_position(o: Seq<usize>, outside: spec_fn(usize) -> bool, m0: int) -> (m: int)
    requires
        0 <= m0 < o.len(),
        outside(o[m0]),
    ensures
        0 <= m <= m0,
        outside(o[m]),
        forall|m2: int| 0 <= m2 < m ==> !outside(#[trigger] o[m2]),
    decreases m0,
{
    if exists|m2: int| 0 <= m2 < m0 && outside(#[trigger] o[m2]) {
        let m2 = choose|m2: int| 0 <= m2 < m0 && outside(#[trigger] o[m2]);
        lemma_least_position(o, outside, m2)
    } else {
        m0
    }
}

/// When the items outside a distinct partial order `order` each have a source
/// outside it, no complete order of the items exists.
proof fn lemma_stuck_means_cycle(srcs: Seq<Seq<int>>, order: Seq<usize>)
    requires
        srcs.len() <= usize::MAX,
        order.no_duplicates(),
        forall|q: int| 0 <= q < order.len() ==> order[q] < srcs.len(),
        order.len() < srcs.len(),
        forall|x: int, k: int| 0 <= x < srcs.len() && 0 <= k < srcs[x].len() ==> 0 <= #[trigger] srcs[x][k] < srcs.len(),
        forall|x: usize|
            x < srcs.len() && !order.contains(x) ==> exists|k: int|
                0 <= k < srcs[x as int].len() && !order.contains(#[trigger] srcs[x as int][k] as usize),
    ensures
        forall|o: Seq<usize>| !is_order_of(srcs, o),
{
    assert forall|o: Seq<usize>| !is_order_of(srcs, o) by {
        if is_order_of(srcs, o) {
            let n = srcs.len();
            if forall|x: usize| x < n ==> order.contains(x) {
                lemma_cover_len(order, n);
                assert(false);
            }
            let missing = choose|x: usize| x < n && !order.contains(x);
            assert(missing < n && !order.contains(missing));
            lemma_distinct_full(o, n, missing);
            let m0 = choose|m0: int| 0 <= m0 < o.len() && o[m0] == missing;
            let outside = |v: usize| !order.contains(v);
            let m = lemma_least_position(o, outside, m0);
            let x = o[m];
            let k = choose|k: int|
                0 <= k < srcs[x as int].len() && !order.contains(#[trigger] srcs[x as int][k] as usize);
            assert(placed_before(o, m, srcs[o[m] as int][k]));
            let p = choose|p: int| 0 <= p < m && o[p] as int == srcs[o[m] as int][k];
            assert(outside(o[p]));
        }
    }
}

/// A sequence holding every value below `n` has at least `n` elements.
proof fn lemma_cover_len(s: Seq<usize>, n: nat)
    requires
        n <= usize::MAX,
        forall|x: usize| x < n ==> s.contains(x),
    ensures
        s.len() >= n,
    decreases n,
{
    if n > 0 {
        let top = (n - 1) as usize;
        assert(s.contains(top));
        let p = choose|p: int| 0 <= p < s.len() && s[p] == top;
        let t = s.remove(p);
        assert forall|x: usize| x < n - 1 implies t.contains(x) by {
            assert(s.contains(x));
            let q = choose|q: int| 0 <= q < s.len() && s[q] == x;
            assert(x != top) by {
                assert(top as int == n - 1);
            }
            if q < p {
                assert(t[q] == x);
            } else {
                assert(q != p);
                assert(t[q - 1] == x);
            }
        }
        lemma_cover_len(t, (n - 1) as nat);
    }
}

/// Finds the last item called `d`.
pub(crate) fn find_last_index(names: &Vec<String>, d: &String) -> (r: Option<usize>)
    ensures
        match r {
            Some(i) => i as int == resolve(str_seq(names@), d@),
            None => resolve(str_seq(names@), d@) == -1,
        },
{
    let ghost ns = str_seq(names@);
    let mut idx = names.len();
    assert(ns.take(idx as int) =~= ns);
    while idx > 0
        invariant
            idx <= names.len(),
            ns == str_seq(names@),
            resolve(ns, d@) == resolve(ns.take(idx as int), d@),
        decreases idx,
    {
        assert(ns.take(idx as int).last() == names@[idx - 1]@);
        if names[idx - 1] == *d {
            return Some(idx - 1);
        }
        assert(ns.take(idx as int).drop_last() =~= ns.take(idx - 1));
        idx -= 1;
    }
    None
}

/// Resolves every dependency name to the index of the item it names.
fn resolve_sources(names: &Vec<String>, deps: &Vec<Vec<String>>) -> (r: Result<Vec<Vec<usize>>, DependencyError>)
    requires
        deps.len() == names.len(),
    ensures
        match r {
            Ok(src) => {
                &&& all_known(str_seq(names@), str_seq_seq(deps@))
                &&& src.len() == names.len()
                &&& forall|i: int| 0 <= i < src.len() ==> #[trigger] src[i].len() == deps[i].len()
                &&& forall|i: int, k: int| 0 <= i < src.len() && 0 <= k < src[i].len() ==>
                    #[trigger] src[i][k] as int == sources(str_seq(names@), str_seq_seq(deps@))[i][k]
            },
            Err(DependencyError::UnknownDependency { item, dependency }) =>
                first_unknown(str_seq(names@), str_seq_seq(deps@), item as int, dependency as int),
            Err(DependencyError::Cycle) => false,
        },
{
    let ghost ns = str_seq(names@);
    let ghost ds = str_seq_seq(deps@);
    let mut src: Vec<Vec<usize>> = Vec::new();
    let mut i: usize = 0;
    while i < deps.len()
        invariant
            i <= deps.len(),
            deps.len() == names.len(),
            ns == str_seq(names@),
            ds == str_seq_seq(deps@),
            src.len() == i,
            forall|i2: int, k2: int| 0 <= i2 < i && 0 <= k2 < ds[i2].len() ==> #[trigger] known(ns, ds, i2, k2),
            forall|i2: int| 0 <= i2 < i ==> #[trigger] src[i2].len() == deps[i2].len(),
            forall|i2: int, k2: int| 0 <= i2 < i && 0 <= k2 < src[i2].len() ==>
                #[trigger] src[i2][k2] as int == sources(ns, ds)[i2][k2],
        decreases deps.len() - i,
    {
        let mut row: Vec<usize> = Vec::new();
        let mut k: usize = 0;
        while k < deps[i].len()
            invariant
                i < deps.len(),
                k <= deps[i as int].len(),
                deps.len() == names.len(),
                ns == str_seq(names@),
                ds == str_seq_seq(deps@),
                row.len() == k,
                forall|i2: int, k2: int| 0 <= i2 < i && 0 <= k2 < ds[i2].len() ==> #[trigger] known(ns, ds, i2, k2),
                forall|k2: int| 0 <= k2 < k ==> #[trigger] known(ns, ds, i as int, k2),
                forall|k2: int| 0 <= k2 < k ==> #[trigger] row[k2] as int == sources(ns, ds)[i as int][k2],
            decreases deps[i as int].len() - k,
        {
            assert(ds[i as int][k as int] == deps@[i as int]@[k as int]@);
            match find_last_index(names, &deps[i][k]) {
                Some(idx) => {
                    row.push(idx);
                },
                None => {
                    assert forall|i2: int, k2: int|
                        0 <= i2 < ds.len() && 0 <= k2 < ds[i2].len() && (i2 < i || (i2 == i && k2 < k))
                        implies #[trigger] known(ns, ds, i2, k2) by {}
                    return Err(DependencyError::UnknownDependency { item: i, dependency: k });
                },
            }
            k += 1;
        }
        src.push(row);
        i += 1;
    }
    assert forall|i2: int, k2: int| 0 <= i2 < ds.len() && 0 <= k2 < ds[i2].len() implies #[trigger] known(
        ns,
        ds,
        i2,
        k2,
    ) by {}
    Ok(src)
}

/// Does `v` hold `x`?
fn contains_index(v: &Vec<usize>, x: usize) -> (r: bool)
    ensures
        r == v@.contains(x),
{
    let mut i: usize = 0;
    while i < v.len()
        invariant
            i <= v.len(),
            forall|j: int| 0 <= j < i ==> v@[j] != x,
        decreases v.len() - i,
    {
        if v[i] == x {
            return true;
        }
        i += 1;
    }
    false
}

/// Are all the items listed in `v` marked in `marks`?
fn all_marked(v: &Vec<usize>, marks: &Vec<bool>) -> (r: bool)
    requires
        forall|j: int| 0 <= j < v.len() ==> v@[j] < marks.len(),
    ensures
        r == (forall|j: int| 0 <= j < v.len() ==> marks@[#[trigger] v@[j] as int]),
{
    let mut i: usize = 0;
    while i < v.len()
        invariant
            i <= v.len(),
            forall|j: int| 0 <= j < v.len() ==> v@[j] < marks.len(),
            forall|j: int| 0 <= j < i ==> marks@[#[trigger] v@[j] as int],
        decreases v.len() - i,
    {
        if !marks[v[i]] {
            return false;
        }
        i += 1;
    }
    true
}

/// Views resolved sources as integer sequences.
pub open spec fn src_view(src: Seq<Vec<usize>>) -> Seq<Seq<int>> {
    src.map_values(|v: Vec<usize>| v@.map_values(|x: usize| x as int))
}

/// Every source listed in `s` is marked in `marks`.
pub open spec fn all_marked_spec(s: Seq<int>, marks: Seq<bool>) -> bool {
    forall|k: int| 0 <= k < s.len() ==> marks[#[trigger] s[k]]
}

proof fn lemma_placed_before_grow(o1: Seq<usize>, o2: Seq<usize>, q1: int, q2: int, v: int)
    requires
        placed_before(o1, q1, v),
        q1 <= q2,
        q1 <= o1.len(),
        q2 <= o2.len(),
        o1.len() <= o2.len(),
        forall|p: int| 0 <= p < o1.len() ==> o1[p] == o2[p],
    ensures
        placed_before(o2, q2, v),
{
    let p = choose|p: int| 0 <= p < q1 && o1[p] as int == v;
    assert(o2[p] as int == v);
}

proof fn lemma_placed_before_prefix(o1: Seq<usize>, o2: Seq<usize>, q: int, v: int)
    requires
        placed_before(o2, q, v),
        q <= o1.len(),
        o1.len() <= o2.len(),
        forall|p: int| 0 <= p < o1.len() ==> o1[p] == o2[p],
    ensures
        placed_before(o1, q, v),
{
    let p = choose|p: int| 0 <= p < q && o2[p] as int == v;
    assert(o1[p] as int == v);
}

/// One step of the scan that follows taking `cur` from the queue: item `j`
/// joins the order exactly when `cur` is one of its sources and all its
/// sources have been taken.
proof fn lemma_scan_step(
    sv: Seq<Seq<int>>,
    old_order: Seq<usize>,
    a: Seq<usize>,
    b: Seq<usize>,
    old_popped: Seq<bool>,
    popped: Seq<bool>,
    head: int,
    cur: usize,
    j: usize,
    pushed: bool,
)
    requires
        sv.len() == popped.len() == old_popped.len(),
        forall|x: int, k: int| 0 <= x < sv.len() && 0 <= k < sv[x].len() ==> 0 <= #[trigger] sv[x][k] < sv.len(),
        cur < sv.len(),
        j < sv.len(),
        0 < head <= old_order.len() <= a.len(),
        forall|p: int| 0 <= p < old_order.len() ==> old_order[p] == a[p],
        popped == old_popped.update(cur as int, true),
        !old_popped[cur as int],
        forall|x: int| 0 <= x < sv.len() ==> (popped[x] <==> placed_before(old_order, head, x)),
        a.no_duplicates(),
        forall|q: int| 0 <= q < a.len() ==> a[q] < sv.len(),
        forall|q: int| old_order.len() <= q < a.len() ==> a[q] < j,
        forall|x: usize| x < j ==> (a.contains(x) <==> all_marked_spec(sv[x as int], popped)),
        forall|x: usize| j <= x < sv.len() ==> (a.contains(x) <==> all_marked_spec(sv[x as int], old_popped)),
        forall|q: int, k: int| 0 <= q < a.len() && 0 <= k < sv[a[q] as int].len() ==> placed_before(a, q, #[trigger] sv[a[q] as int][k]),
        pushed == (sv[j as int].contains(cur as int) && all_marked_spec(sv[j as int], popped)),
        b == (if pushed { a.push(j) } else { a }),
    ensures
        forall|p: int| 0 <= p < a.len() ==> a[p] == b[p],
        a.len() <= b.len(),
        b.no_duplicates(),
        forall|q: int| 0 <= q < b.len() ==> b[q] < sv.len(),
        forall|q: int| old_order.len() <= q < b.len() ==> b[q] < j + 1,
        forall|x: usize| x < j + 1 ==> (b.contains(x) <==> all_marked_spec(sv[x as int], popped)),
        forall|x: usize| j + 1 <= x < sv.len() ==> (b.contains(x) <==> all_marked_spec(sv[x as int], old_popped)),
        forall|q: int, k: int| 0 <= q < b.len() && 0 <= k < sv[b[q] as int].len() ==> placed_before(b, q, #[trigger] sv[b[q] as int][k]),
{
    let s = sv[j as int];
    if s.contains(cur as int) {
        let kc = choose|kc: int| 0 <= kc < s.len() && s[kc] == cur as int;
        assert(!old_popped[s[kc]]);
        assert(!all_marked_spec(s, old_popped));
        assert(!a.contains(j));
    } else {
        assert forall|k: int| 0 <= k < s.len() implies popped[s[k]] == old_popped[#[trigger] s[k]] by {
            assert(s[k] != cur as int);
        }
        assert(all_marked_spec(s, popped) == all_marked_spec(s, old_popped));
    }
    if pushed {
        assert forall|x: usize| x < j + 1 implies (b.contains(x) <==> all_marked_spec(sv[x as int], popped)) by {
            if x == j {
                assert(b[a.len() as int] == j);
            } else {
                if a.contains(x) {
                    let p = choose|p: int| 0 <= p < a.len() && a[p] == x;
                    assert(b[p] == x);
                }
                if b.contains(x) {
                    let p = choose|p: int| 0 <= p < b.len() && b[p] == x;
                    assert(p != a.len());
                    assert(a[p] == x);
                }
            }
        }
        assert forall|x: usize| j + 1 <= x < sv.len() implies (b.contains(x) <==> all_marked_spec(sv[x as int], old_popped)) by {
            if a.contains(x) {
                let p = choose|p: int| 0 <= p < a.len() && a[p] == x;
                assert(b[p] == x);
            }
            if b.contains(x) {
                let p = choose|p: int| 0 <= p < b.len() && b[p] == x;
                assert(p != a.len());
                assert(a[p] == x);
            }
        }
        assert forall|q: int, k: int| 0 <= q < b.len() && 0 <= k < sv[b[q] as int].len() implies placed_before(b, q, #[trigger] sv[b[q] as int][k]) by {
            if q < a.len() {
                assert(b[q] == a[q]);
                lemma_placed_before_grow(a, b, q, q, sv[a[q] as int][k]);
            } else {
                assert(b[q] == j);
                assert(popped[s[k]]);
                lemma_placed_before_grow(old_order, b, head, q, s[k]);
            }
        }
    }
}

/// Orders items breadth-first from those without sources: an item joins
/// the queue, in increasing index order, once its last source has been taken
/// from the queue. Returns `None` when the sources form a cycle.
fn order_by_sources(src: &Vec<Vec<usize>>) -> (r: Option<Vec<usize>>)
    requires
        forall|x: int, k: int| 0 <= x < src.len() && 0 <= k < src[x].len() ==> #[trigger] src[x]@[k] < src.len(),
    ensures
        match r {
            Some(order) => is_order_of(src_view(src@), order@),
            None => forall|o: Seq<usize>| !is_order_of(src_view(src@), o),
        },
{
    let n = src.len();
    let ghost sv = src_view(src@);
    assert forall|x: int| 0 <= x < n implies #[trigger] sv[x].len() == src@[x].len() by {}
    assert forall|x: int, k: int| 0 <= x < n && 0 <= k < src@[x].len() implies #[trigger] sv[x][k] == src@[x]@[k] as int by {}
    let mut order: Vec<usize> = Vec::new();
    let mut popped: Vec<bool> = Vec::new();
    let mut i: usize = 0;
    while i < n
        invariant
            i <= n,
            n == src.len() == sv.len(),
            forall|x: int| 0 <= x < n ==> #[trigger] sv[x].len() == src@[x].len(),
            popped.len() == i,
            forall|x: int| 0 <= x < i ==> !popped@[x],
            order@.no_duplicates(),
            forall|q: int| 0 <= q < order.len() ==> order@[q] < i,
            forall|x: usize| x < i ==> (order@.contains(x) <==> sv[x as int].len() == 0),
            forall|q: int| 0 <= q < order.len() ==> sv[order@[q] as int].len() == 0,
        decreases n - i,
    {
        let ghost before = order@;
        if src[i].len() == 0 {
            order.push(i);
            proof {
                assert forall|x: usize| x < i + 1 implies (order@.contains(x) <==> sv[x as int].len() == 0) by {
                    if x < i {
                        if before.contains(x) {
                            let p = choose|p: int| 0 <= p < before.len() && before[p] == x;
                            assert(order@[p] == x);
                        }
                        if order@.contains(x) {
                            let p = choose|p: int| 0 <= p < order.len() && order@[p] == x;
                            assert(p < before.len());
                            assert(before[p] == x);
                        }
                    } else {
                        assert(order@[before.len() as int] == i);
                    }
                }
            }
        } else {
            proof {
                assert forall|x: usize| x < i + 1 implies (order@.contains(x) <==> sv[x as int].len() == 0) by {
                    if x == i && order@.contains(x) {
                        let p = choose|p: int| 0 <= p < order.len() && order@[p] == x;
                    }
                }
            }
        }
        popped.push(false);
        i += 1;
    }
    let mut head: usize = 0;
    proof {
        assert forall|x: usize| x < n implies (order@.contains(x) <==> all_marked_spec(sv[x as int], popped@)) by {
            if sv[x as int].len() > 0 {
                assert(!popped@[sv[x as int][0]]);
            }
        }
    }
    while head < order.len()
        invariant
            n == src.len() == sv.len(),
            sv == src_view(src@),
            forall|x: int| 0 <= x < n ==> #[trigger] sv[x].len() == src@[x].len(),
            forall|x: int, k: int| 0 <= x < n && 0 <= k < src@[x].len() ==> #[trigger] sv[x][k] == src@[x]@[k] as int,
            forall|x: int, k: int| 0 <= x < src.len() && 0 <= k < src[x].len() ==> #[trigger] src[x]@[k] < src.len(),
            popped.len() == n,
            head <= order.len(),
            order@.no_duplicates(),
            forall|q: int| 0 <= q < order.len() ==> order@[q] < n,
            forall|x: int| 0 <= x < n ==> (popped@[x] <==> placed_before(order@, head as int, x)),
            forall|x: usize| x < n ==> (order@.contains(x) <==> all_marked_spec(sv[x as int], popped@)),
            forall|q: int, k: int| 0 <= q < order.len() && 0 <= k < sv[order@[q] as int].len() ==> placed_before(
                order@,
                q,
                #[trigger] sv[order@[q] as int][k],
            ),
        decreases n - head,
    {
        proof {
            lemma_distinct_len_le(order@, n as nat);
        }
        let cur = order[head];
        let ghost old_popped = popped@;
        let ghost old_order = order@;
        proof {
            if placed_before(order@, head as int, cur as int) {
                let p = choose|p: int| 0 <= p < head && order@[p] as int == cur as int;
                assert(order@[p] == order@[head as int]);
            }
        }
        popped.set(cur, true);
        head += 1;
        proof {
            assert forall|x: int| 0 <= x < n implies (popped@[x] <==> placed_before(old_order, head as int, x)) by {
                if x == cur as int {
                    assert(old_order[head - 1] as int == x);
                } else {
                    if placed_before(old_order, head as int, x) {
                        let p = choose|p: int| 0 <= p < head && old_order[p] as int == x;
                        assert(p != head - 1);
                        assert(placed_before(old_order, head - 1, x));
                    }
                }
            }
        }
        let mut j: usize = 0;
        while j < n
            invariant
                n == src.len() == sv.len(),
                forall|x: int| 0 <= x < n ==> #[trigger] sv[x].len() == src@[x].len(),
                forall|x: int, k: int| 0 <= x < n && 0 <= k < src@[x].len() ==> #[trigger] sv[x][k] == src@[x]@[k] as int,
                forall|x: int, k: int| 0 <= x < src.len() && 0 <= k < src[x].len() ==> #[trigger] src[x]@[k] < src.len(),
                popped.len() == n,
                old_popped.len() == n,
                cur < n,
                0 < head <= old_order.len() <= order.len(),
                j <= n,
                forall|p: int| 0 <= p < old_order.len() ==> old_order[p] == order@[p],
                order@.no_duplicates(),
                forall|q: int| 0 <= q < order.len() ==> order@[q] < n,
                forall|q: int| old_order.len() <= q < order.len() ==> order@[q] < j,
                popped@ == old_popped.update(cur as int, true),
                !old_popped[cur as int],
                forall|x: int| 0 <= x < n ==> (popped@[x] <==> placed_before(old_order, head as int, x)),
                forall|x: usize| x < j ==> (order@.contains(x) <==> all_marked_spec(sv[x as int], popped@)),
                forall|x: usize| j <= x < n ==> (order@.contains(x) <==> all_marked_spec(sv[x as int], old_popped)),
                forall|q: int, k: int| 0 <= q < order.len() && 0 <= k < sv[order@[q] as int].len() ==> placed_before(
                    order@,
                    q,
                    #[trigger] sv[order@[q] as int][k],
                ),
            decreases n - j,
        {
            let has_cur = contains_index(&src[j], cur);
            let ready = all_marked(&src[j], &popped);
            let ghost a = order@;
            proof {
                let s = sv[j as int];
                if has_cur {
                    let kc = choose|kc: int| 0 <= kc < src@[j as int].len() && src@[j as int]@[kc] == cur;
                    assert(s[kc] == cur as int);
                }
                if s.contains(cur as int) {
                    let kc = choose|kc: int| 0 <= kc < s.len() && s[kc] == cur as int;
                    assert(src@[j as int]@[kc] == cur);
                }
                assert(has_cur == s.contains(cur as int));
                assert forall|k: int| 0 <= k < s.len() implies popped@[#[trigger] s[k]] == popped@[src@[j as int]@[k] as int] by {}
                if ready {
                    assert forall|k: int| 0 <= k < s.len() implies popped@[#[trigger] s[k]] by {
                        assert(popped@[src@[j as int]@[k] as int]);
                    }
                }
                if all_marked_spec(s, popped@) {
                    assert forall|k: int| 0 <= k < src@[j as int].len() implies popped@[#[trigger] src@[j as int]@[k] as int] by {
                        assert(popped@[s[k]]);
                    }
                }
            }
            if has_cur && ready {
                order.push(j);
            }
            proof {
                lemma_scan_step(sv, old_order, a, order@, old_popped, popped@, head as int, cur, j, has_cur && ready);
            }
            j += 1;
        }
        proof {
            assert forall|x: int| 0 <= x < n implies (popped@[x] <==> placed_before(order@, head as int, x)) by {
                if placed_before(old_order, head as int, x) {
                    lemma_placed_before_grow(old_order, order@, head as int, head as int, x);
                }
                if placed_before(order@, head as int, x) {
                    lemma_placed_before_prefix(old_order, order@, head as int, x);
                }
            }
        }
    }
    if order.len() == n {
        Some(order)
    } else {
        proof {
            lemma_distinct_len_le(order@, n as nat);
            assert forall|x: int| 0 <= x < n implies (popped@[x] <==> order@.contains(x as usize)) by {
                if popped@[x] {
                    let p = choose|p: int| 0 <= p < head && order@[p] as int == x;
                    assert(order@[p] == x as usize);
                }
                if order@.contains(x as usize) {
                    let p = choose|p: int| 0 <= p < order.len() && order@[p] == x as usize;
                    assert(placed_before(order@, head as int, x));
                }
            }
            assert forall|x: usize| x < sv.len() && !order@.contains(x) implies exists|k: int|
                0 <= k < sv[x as int].len() && !order@.contains(#[trigger] sv[x as int][k] as usize) by {
                assert(!all_marked_spec(sv[x as int], popped@));
                let k = choose|k: int| 0 <= k < sv[x as int].len() && !popped@[#[trigger] sv[x as int][k]];
                assert(!order@.contains(sv[x as int][k] as usize));
            }
            lemma_stuck_means_cycle(sv, order@);
        }
        None
    }
}

/// Resolves the dependency names and checks that each names an item.
fn checked_sources(names: &Vec<String>, deps: &Vec<Vec<String>>) -> (r: Result<Vec<Vec<usize>>, DependencyError>)
    requires
        deps.len() == names.len(),
    ensures
        !all_known(str_seq(names@), str_seq_seq(deps@)) ==> r matches Err(DependencyError::UnknownDependency { .. }),
        r matches Err(DependencyError::UnknownDependency { item, dependency }) ==> first_unknown(
            str_seq(names@),
            str_seq_seq(deps@),
            item as int,
            dependency as int,
        ),
        !(r matches Err(DependencyError::Cycle)),
        r matches Ok(src) ==> {
            &&& all_known(str_seq(names@), str_seq_seq(deps@))
            &&& src.len() == names.len()
            &&& src_view(src@) == sources(str_seq(names@), str_seq_seq(deps@))
            &&& forall|x: int, k: int| 0 <= x < src.len() && 0 <= k < src[x].len() ==> #[trigger] src[x]@[k] < src.len()
        },
{
    let ghost ns = str_seq(names@);
    let ghost ds = str_seq_seq(deps@);
    let src = resolve_sources(names, deps)?;
    proof {
        assert forall|x: int, k: int| 0 <= x < src.len() && 0 <= k < src[x].len() implies #[trigger] src[x]@[k] < src.len() by {
            assert(known(ns, ds, x, k));
            lemma_resolve_bound(ns, ds[x][k]);
        }
        assert(src_view(src@) =~= sources(ns, ds)) by {
            assert forall|x: int| 0 <= x < src.len() implies #[trigger] src_view(src@)[x] =~= sources(ns, ds)[x] by {
                assert(ds[x].len() == deps@[x].len());
                assert(src_view(src@)[x].len() == src@[x].len());
                assert forall|k: int| 0 <= k < src@[x].len() implies src_view(src@)[x][k] == sources(ns, ds)[x][k] by {
                    assert(src[x][k] as int == sources(ns, ds)[x][k]);
                }
            }
        }
    }
    Ok(src)
}

/// Orders items so that each comes after the items its dependency names
/// refer to. Dependencies are resolved to the last item of that name; an
/// unknown name is reported at its first occurrence, and a cycle when no
/// order exists. Among independent items the order is breadth-first from
/// the items without dependencies, in index order.
pub fn topological_order(names: &Vec<String>, deps: &Vec<Vec<String>>) -> (r: Result<Vec<usize>, DependencyError>)
    requires
        deps.len() == names.len(),
    ensures
        !all_known(str_seq(names@), str_seq_seq(deps@)) ==> r matches Err(DependencyError::UnknownDependency { .. }),
        r matches Err(DependencyError::UnknownDependency { item, dependency }) ==> first_unknown(
            str_seq(names@),
            str_seq_seq(deps@),
            item as int,
            dependency as int,
        ),
        all_known(str_seq(names@), str_seq_seq(deps@)) ==> (r is Ok <==> has_topological_order(str_seq(names@), str_seq_seq(deps@))),
        r matches Ok(order) ==> is_topological_order(str_seq(names@), str_seq_seq(deps@), order@),
{
    let ghost ns = str_seq(names@);
    let ghost ds = str_seq_seq(deps@);
    let src = checked_sources(names, deps)?;
    match order_by_sources(&src) {
        Some(order) => {
            assert(is_topological_order(ns, ds, order@));
            Ok(order)
        },
        None => {
            assert(!has_topological_order(ns, ds));
            Err(DependencyError::Cycle)
        },
    }
}

/// Regroups a dependency order level by level, and within a level by
/// priority rank, keeping the dependency order among equal keys.
fn regroup_by_level(order: &Vec<usize>, levels: &Vec<usize>, ranks: &Vec<u8>) -> (r: Vec<usize>)
    requires
        levels.len() == ranks.len(),
        forall|q: int| 0 <= q < order.len() ==> order@[q] < levels.len(),
        forall|x: int| 0 <= x < ranks.len() ==> ranks@[x] < 4,
    ensures
        r@ == sorted_by_key(
            order@,
            priority_keys(levels@.map_values(|l: usize| l as int), ranks@.map_values(|k: u8| k as int)),
            4 * levels.len(),
        ),
{
    let n = levels.len();
    let ghost keys = priority_keys(levels@.map_values(|l: usize| l as int), ranks@.map_values(|k: u8| k as int));
    let ghost o = order@;
    let mut res: Vec<usize> = Vec::new();
    let mut lev: usize = 0;
    while lev < n
        invariant
            lev <= n,
            n == levels.len() == ranks.len(),
            o == order@,
            keys == priority_keys(levels@.map_values(|l: usize| l as int), ranks@.map_values(|k: u8| k as int)),
            forall|q: int| 0 <= q < order.len() ==> order@[q] < levels.len(),
            forall|x: int| 0 <= x < ranks.len() ==> ranks@[x] < 4,
            res@ == sorted_by_key(o, keys, 4 * lev),
        decreases n - lev,
    {
        let mut rk: u8 = 0;
        while rk < 4
            invariant
                lev < n,
                rk <= 4,
                n == levels.len() == ranks.len(),
                o == order@,
                keys == priority_keys(levels@.map_values(|l: usize| l as int), ranks@.map_values(|k: u8| k as int)),
                forall|q: int| 0 <= q < order.len() ==> order@[q] < levels.len(),
                forall|x: int| 0 <= x < ranks.len() ==> ranks@[x] < 4,
            forall|x: int| 0 <= x < ranks.len() ==> ranks@[x] < 4,
                res@ == sorted_by_key(o, keys, 4 * lev + rk),
            decreases 4 - rk,
        {
            let ghost base = res@;
            let ghost kk = 4 * lev + rk;
            let mut i: usize = 0;
            assert(o.take(0) =~= Seq::<usize>::empty());
            while i < order.len()
                invariant
                    i <= order.len(),
                    lev < n,
                    rk < 4,
                    kk == 4 * lev + rk,
                    n == levels.len() == ranks.len(),
                    o == order@,
                    keys == priority_keys(levels@.map_values(|l: usize| l as int), ranks@.map_values(|k: u8| k as int)),
                    forall|q: int| 0 <= q < order.len() ==> order@[q] < levels.len(),
                    forall|x: int| 0 <= x < ranks.len() ==> ranks@[x] < 4,
                forall|x: int| 0 <= x < ranks.len() ==> ranks@[x] < 4,
            forall|x: int| 0 <= x < ranks.len() ==> ranks@[x] < 4,
                    base == sorted_by_key(o, keys, kk),
                    res@ == base + key_block(o.take(i as int), keys, kk),
                decreases order.len() - i,
            {
                let x = order[i];
                assert(o.take(i + 1).drop_last() =~= o.take(i as int));
                assert(o.take(i + 1).last() == x);
                assert(keys[x as int] == 4 * levels@[x as int] + ranks@[x as int]);
                if levels[x] == lev && ranks[x] == rk {
                    res.push(x);
                    assert(res@ =~= base + key_block(o.take(i + 1), keys, kk));
                } else {
                    assert(keys[x as int] != kk);
                }
                i += 1;
            }
            assert(o.take(order.len() as int) =~= o);
            assert(sorted_by_key(o, keys, kk + 1) == base + key_block(o, keys, kk));
            rk += 1;
        }
        lev += 1;
    }
    res
}

/// `res` regroups a topological order of the items by dependency level,
/// then by priority rank, keeping that order among items of equal level and
/// rank.
pub open spec fn is_prioritized_order(
    names: Seq<Seq<char>>,
    deps: Seq<Seq<Seq<char>>>,
    ranks: Seq<int>,
    res: Seq<usize>,
) -> bool {
    exists|order: Seq<usize>, levels: Seq<int>|
        #![trigger is_topological_order(names, deps, order), is_level_map(sources(names, deps), levels)]
        is_topological_order(names, deps, order) && is_level_map(sources(names, deps), levels) && res
            == sorted_by_key(order, priority_keys(levels, ranks), 4 * (names.len() as int))
}

/// Orders items as `topological_order` does, then regroups the order by
/// dependency level (an item without dependencies has level 0, any other
/// item one more than the highest level among its dependencies) and, within
/// a level, by priority rank, lowest rank first. Items of equal level and
/// rank keep their relative dependency order.
pub fn prioritized_order(names: &Vec<String>, deps: &Vec<Vec<String>>, ranks: &Vec<u8>) -> (r: Result<
    Vec<usize>,
    DependencyError,
>)
    requires
        deps.len() == names.len(),
        ranks.len() == names.len(),
        forall|x: int| 0 <= x < ranks.len() ==> ranks@[x] < 4,
    ensures
        !all_known(str_seq(names@), str_seq_seq(deps@)) ==> r matches Err(DependencyError::UnknownDependency { .. }),
        r matches Err(DependencyError::UnknownDependency { item, dependency }) ==> first_unknown(
            str_seq(names@),
            str_seq_seq(deps@),
            item as int,
            dependency as int,
        ),
        all_known(str_seq(names@), str_seq_seq(deps@)) ==> (r is Ok <==> has_topological_order(str_seq(names@), str_seq_seq(deps@))),
        r matches Ok(res) ==> is_topological_order(str_seq(names@), str_seq_seq(deps@), res@),
        r matches Ok(res) ==> is_prioritized_order(
            str_seq(names@),
            str_seq_seq(deps@),
            ranks@.map_values(|k: u8| k as int),
            res@,
        ),
{
    let ghost ns = str_seq(names@);
    let ghost ds = str_seq_seq(deps@);
    let src = checked_sources(names, deps)?;
    let order = match order_by_sources(&src) {
        Some(order) => order,
        None => {
            assert(!has_topological_order(ns, ds));
            return Err(DependencyError::Cycle);
        },
    };
    let levels = dependency_levels(&src, &order);
    proof {
        lemma_distinct_len_le(order@, src.len() as nat);
    }
    let res = regroup_by_level(&order, &levels, ranks);
    proof {
        let srcs = sources(ns, ds);
        let lv = levels@.map_values(|l: usize| l as int);
        let rv = ranks@.map_values(|k: u8| k as int);
        let keys = priority_keys(lv, rv);
        assert forall|x: int| 0 <= x < srcs.len() implies 0 <= #[trigger] keys[x] < 4 * names.len() by {
            assert(levels@[x] < src.len());
        }
        assert forall|x: int, k: int| 0 <= x < srcs.len() && 0 <= k < srcs[x].len() implies keys[#[trigger] srcs[x][k]]
            < keys[x] by {
            assert(placed_before(order@, src.len() as int, srcs[x][k])) by {
                lemma_distinct_full(order@, src.len() as nat, x as usize);
                let q = choose|q: int| 0 <= q < order.len() && order@[q] == x as usize;
                assert(placed_before(order@, q, srcs[order@[q] as int][k]));
                let p = choose|p: int| 0 <= p < q && order@[p] as int == srcs[x][k];
            }
            lemma_max_level_bounds(srcs[x], lv);
            assert(lv[x] == level_from(srcs[x], lv));
        }
        lemma_regrouped_order_respects_dependencies(srcs, order@, keys, 4 * names.len());
        assert(is_topological_order(ns, ds, order@));
        assert(is_level_map(srcs, lv));
    }
    Ok(res)
}

/// A resolved index lies below the number of names.
pub proof fn lemma_resolve_bound(names: Seq<Seq<char>>, d: Seq<char>)
    ensures
        resolve(names, d) < names.len(),
    decreases names.len(),
{
    if names.len() > 0 && names.last() != d {
        lemma_resolve_bound(names.drop_last(), d);
    }
}


/// The highest level among the items in `s`, or 0 for no items.
pub open spec fn max_level(s: Seq<int>, levels: Seq<int>) -> int
    decreases s.len(),
{
    if s.len() == 0 {
        0
    } else {
        let rest = max_level(s.drop_last(), levels);
        let last = levels[s.last()];
        if last > rest {
            last
        } else {
            rest
        }
    }
}

/// The dependency level of an item with sources `s`: 0 without sources,
/// otherwise one more than the highest level among its sources.
pub open spec fn level_from(s: Seq<int>, levels: Seq<int>) -> int {
    if s.len() == 0 {
        0
    } else {
        1 + max_level(s, levels)
    }
}

/// `levels` gives every item its dependency level.
pub open spec fn is_level_map(srcs: Seq<Seq<int>>, levels: Seq<int>) -> bool {
    &&& levels.len() == srcs.len()
    &&& forall|x: int| 0 <= x < srcs.len() ==> #[trigger] levels[x] == level_from(srcs[x], levels)
}

proof fn lemma_max_level_bounds(s: Seq<int>, levels: Seq<int>)
    requires
        forall|k: int| 0 <= k < s.len() ==> levels[#[trigger] s[k]] >= 0,
    ensures
        forall|k: int| 0 <= k < s.len() ==> levels[#[trigger] s[k]] <= max_level(s, levels),
        s.len() > 0 ==> exists|k: int| 0 <= k < s.len() && levels[#[trigger] s[k]] == max_level(s, levels),
        s.len() == 0 ==> max_level(s, levels) == 0,
    decreases s.len(),
{
    if s.len() > 0 {
        assert forall|k: int| 0 <= k < s.len() - 1 implies levels[#[trigger] s.drop_last()[k]] >= 0 by {
            assert(s.drop_last()[k] == s[k]);
        }
        lemma_max_level_bounds(s.drop_last(), levels);
        assert forall|k: int| 0 <= k < s.len() implies levels[#[trigger] s[k]] <= max_level(s, levels) by {
            if k < s.len() - 1 {
                assert(s[k] == s.drop_last()[k]);
            }
        }
        if s.len() > 1 && max_level(s, levels) == max_level(s.drop_last(), levels) {
            let k = choose|k: int| 0 <= k < s.len() - 1 && levels[#[trigger] s.drop_last()[k]] == max_level(s.drop_last(), levels);
            assert(s[k] == s.drop_last()[k]);
        } else {
            assert(levels[s[s.len() - 1]] == max_level(s, levels));
        }
    }
}

/// Highest level among the items in `s`.
fn max_level_exec(s: &Vec<usize>, levels: &Vec<usize>) -> (m: usize)
    requires
        forall|k: int| 0 <= k < s.len() ==> s@[k] < levels.len(),
    ensures
        m as int == max_level(s@.map_values(|x: usize| x as int), levels@.map_values(|l: usize| l as int)),
{
    let ghost sv = s@.map_values(|x: usize| x as int);
    let ghost lv = levels@.map_values(|l: usize| l as int);
    let mut m: usize = 0;
    let mut i: usize = 0;
    while i < s.len()
        invariant
            i <= s.len(),
            sv == s@.map_values(|x: usize| x as int),
            lv == levels@.map_values(|l: usize| l as int),
            forall|k: int| 0 <= k < s.len() ==> s@[k] < levels.len(),
            m as int == max_level(sv.take(i as int), lv),
        decreases s.len() - i,
    {
        assert(sv.take(i + 1).drop_last() =~= sv.take(i as int));
        assert(sv.take(i + 1).last() == s@[i as int] as int);
        let l = levels[s[i]];
        if l > m {
            m = l;
        }
        i += 1;
    }
    assert(sv.take(s.len() as int) =~= sv);
    m
}

/// Dependency level of every item, computed along a dependency order.
fn dependency_levels(src: &Vec<Vec<usize>>, order: &Vec<usize>) -> (levels: Vec<usize>)
    requires
        is_order_of(src_view(src@), order@),
        forall|x: int, k: int| 0 <= x < src.len() && 0 <= k < src[x].len() ==> #[trigger] src[x]@[k] < src.len(),
    ensures
        is_level_map(src_view(src@), levels@.map_values(|l: usize| l as int)),
        forall|x: int| 0 <= x < levels.len() ==> #[trigger] levels@[x] < src.len(),
{
    let n = src.len();
    let ghost sv = src_view(src@);
    assert forall|x: int| 0 <= x < n implies #[trigger] sv[x] == src@[x]@.map_values(|v: usize| v as int) by {}
    let mut levels: Vec<usize> = Vec::new();
    let mut done: Vec<bool> = Vec::new();
    while levels.len() < n
        invariant
            levels.len() == done.len() <= n,
            n == src.len(),
            forall|x: int| 0 <= x < done.len() ==> !done@[x],
        decreases n - levels.len(),
    {
        levels.push(0);
        done.push(false);
    }
    let mut q: usize = 0;
    while q < n
        invariant
            n == src.len() == sv.len(),
            sv == src_view(src@),
            forall|x: int| 0 <= x < n ==> #[trigger] sv[x] == src@[x]@.map_values(|v: usize| v as int),
            forall|x: int, k: int| 0 <= x < src.len() && 0 <= k < src[x].len() ==> #[trigger] src[x]@[k] < src.len(),
            is_order_of(sv, order@),
            q <= n,
            levels.len() == n,
            done.len() == n,
            forall|x: int| 0 <= x < n ==> (done@[x] <==> placed_before(order@, q as int, x)),
            forall|x: int| 0 <= x < n && done@[x] ==> #[trigger] levels@[x] as int == level_from(
                sv[x],
                levels@.map_values(|l: usize| l as int),
            ),
            forall|x: int| 0 <= x < n && done@[x] ==> #[trigger] levels@[x] < q,
        decreases n - q,
    {
        let x = order[q];
        let ghost lv0 = levels@.map_values(|l: usize| l as int);
        let ghost done0 = done@;
        proof {
            if placed_before(order@, q as int, x as int) {
                let p = choose|p: int| 0 <= p < q && order@[p] as int == x as int;
                assert(order@[p] == order@[q as int]);
            }
            assert forall|k: int| 0 <= k < sv[x as int].len() implies done@[#[trigger] sv[x as int][k]] by {
                assert(placed_before(order@, q as int, sv[order@[q as int] as int][k]));
            }
            lemma_max_level_bounds(sv[x as int], lv0);
        }
        let lev: usize = if src[x].len() == 0 {
            0
        } else {
            let m = max_level_exec(&src[x], &levels);
            proof {
                let k = choose|k: int| 0 <= k < sv[x as int].len() && lv0[#[trigger] sv[x as int][k]] == max_level(sv[x as int], lv0);
                assert(done@[sv[x as int][k]]);
                assert(levels@[sv[x as int][k]] < q);
            }
            m + 1
        };
        levels.set(x, lev);
        done.set(x, true);
        proof {
            let lv1 = levels@.map_values(|l: usize| l as int);
            assert forall|y: int| 0 <= y < n && done@[y] implies #[trigger] levels@[y] as int == level_from(sv[y], lv1) by {
                assert forall|k: int| 0 <= k < sv[y].len() implies lv1[#[trigger] sv[y][k]] == lv0[sv[y][k]] by {
                    if y == x as int {
                        assert(done@[sv[y][k]] && sv[y][k] != x as int) by {
                            assert(placed_before(order@, q as int, sv[order@[q as int] as int][k]));
                        }
                    } else {
                        assert(done0[y]);
                        let p = choose|p: int| 0 <= p < q && order@[p] as int == y;
                        assert(placed_before(order@, p, sv[order@[p] as int][k]));
                        let p2 = choose|p2: int| 0 <= p2 < p && order@[p2] as int == sv[y][k];
                        assert(placed_before(order@, q as int, sv[y][k]));
                        assert(done0[sv[y][k]]);
                    }
                }
                lemma_max_level_unchanged(sv[y], lv0, lv1);
            }
            assert forall|y: int| 0 <= y < n implies (done@[y] <==> placed_before(order@, q + 1, y)) by {
                if placed_before(order@, q + 1, y) && y != x as int {
                    let p = choose|p: int| 0 <= p < q + 1 && order@[p] as int == y;
                    assert(placed_before(order@, q as int, y));
                }
            }
        }
        q += 1;
    }
    proof {
        assert forall|x: int| 0 <= x < n implies done@[x] by {
            lemma_distinct_full(order@, n as nat, x as usize);
            let p = choose|p: int| 0 <= p < order@.len() && order@[p] == x as usize;
            assert(placed_before(order@, n as int, x));
        }
    }
    levels
}

proof fn lemma_max_level_unchanged(s: Seq<int>, l0: Seq<int>, l1: Seq<int>)
    requires
        forall|k: int| 0 <= k < s.len() ==> l1[#[trigger] s[k]] == l0[s[k]],
    ensures
        max_level(s, l0) == max_level(s, l1),
    decreases s.len(),
{
    if s.len() > 0 {
        assert forall|k: int| 0 <= k < s.len() - 1 implies l1[#[trigger] s.drop_last()[k]] == l0[s.drop_last()[k]] by {
            assert(s.drop_last()[k] == s[k]);
        }
        lemma_max_level_unchanged(s.drop_last(), l0, l1);
    }
}


/// The items of `order` whose key is `k`, in the order of `order`.
pub open spec fn key_block(order: Seq<usize>, keys: Seq<int>, k: int) -> Seq<usize>
    decreases order.len(),
{
    if order.len() == 0 {
        Seq::empty()
    } else {
        let rest = key_block(order.drop_last(), keys, k);
        if keys[order.last() as int] == k {
            rest.push(order.last())
        } else {
            rest
        }
    }
}

/// The items of `order` with a key below `kk`, by increasing key; items
/// with equal keys keep the order they have in `order`.
pub open spec fn sorted_by_key(order: Seq<usize>, keys: Seq<int>, kk: int) -> Seq<usize>
    decreases kk,
{
    if kk <= 0 {
        Seq::empty()
    } else {
        sorted_by_key(order, keys, kk - 1) + key_block(order, keys, kk - 1)
    }
}

/// The sort key of each item: its dependency level, then its priority rank.
pub open spec fn priority_keys(levels: Seq<int>, ranks: Seq<int>) -> Seq<int> {
    Seq::new(levels.len(), |x: int| 4 * levels[x] + ranks[x])
}

proof fn lemma_key_block(order: Seq<usize>, keys: Seq<int>, k: int)
    requires
        order.no_duplicates(),
    ensures
        key_block(order, keys, k).no_duplicates(),
        forall|x: usize| #[trigger] key_block(order, keys, k).contains(x) <==> (order.contains(x) && keys[x as int] == k),
    decreases order.len(),
{
    if order.len() > 0 {
        let d = order.drop_last();
        assert(d.no_duplicates());
        lemma_key_block(d, keys, k);
        let rest = key_block(d, keys, k);
        assert forall|x: usize| order.contains(x) <==> (d.contains(x) || x == order.last()) by {
            if order.contains(x) {
                let p = choose|p: int| 0 <= p < order.len() && order[p] == x;
                if p < order.len() - 1 {
                    assert(d[p] == x);
                }
            }
            if d.contains(x) {
                let p = choose|p: int| 0 <= p < d.len() && d[p] == x;
                assert(order[p] == x);
            }
        }
        if keys[order.last() as int] == k {
            assert(!d.contains(order.last()));
            let b = rest.push(order.last());
            assert forall|x: usize| b.contains(x) <==> (rest.contains(x) || x == order.last()) by {
                if b.contains(x) {
                    let p = choose|p: int| 0 <= p < b.len() && b[p] == x;
                    if p < rest.len() {
                        assert(rest[p] == x);
                    }
                }
                if rest.contains(x) {
                    let p = choose|p: int| 0 <= p < rest.len() && rest[p] == x;
                    assert(b[p] == x);
                }
                if x == order.last() {
                    assert(b[rest.len() as int] == x);
                }
            }
            assert forall|i: int, j: int| 0 <= i < b.len() && 0 <= j < b.len() && i != j implies b[i] != b[j] by {
                if i == rest.len() && j < rest.len() {
                    assert(rest.contains(b[j]));
                }
                if j == rest.len() && i < rest.len() {
                    assert(rest.contains(b[i]));
                }
            }
        }
    }
}

proof fn lemma_sorted_by_key_members(order: Seq<usize>, keys: Seq<int>, kk: int)
    requires
        order.no_duplicates(),
    ensures
        sorted_by_key(order, keys, kk).no_duplicates(),
        forall|x: usize| #[trigger] sorted_by_key(order, keys, kk).contains(x) <==> (order.contains(x) && 0 <= keys[x as int] < kk),
    decreases kk,
{
    if kk > 0 {
        lemma_sorted_by_key_members(order, keys, kk - 1);
        lemma_key_block(order, keys, kk - 1);
        let a = sorted_by_key(order, keys, kk - 1);
        let b = key_block(order, keys, kk - 1);
        assert forall|i: int, j: int| 0 <= i < a.len() && 0 <= j < b.len() implies a[i] != b[j] by {
            assert(a.contains(a[i]));
            assert(b.contains(b[j]));
        }
        vstd::seq_lib::lemma_no_dup_in_concat(a, b);
        assert(sorted_by_key(order, keys, kk) == a + b);
        assert forall|x: usize| (a + b).contains(x) <==> (a.contains(x) || b.contains(x)) by {
            if (a + b).contains(x) {
                let p = choose|p: int| 0 <= p < (a + b).len() && (a + b)[p] == x;
                if p < a.len() {
                    assert(a[p] == x);
                } else {
                    assert(b[p - a.len()] == x);
                }
            }
            if a.contains(x) {
                let p = choose|p: int| 0 <= p < a.len() && a[p] == x;
                assert((a + b)[p] == x);
            }
            if b.contains(x) {
                let p = choose|p: int| 0 <= p < b.len() && b[p] == x;
                assert((a + b)[a.len() + p] == x);
            }
        }
        assert forall|x: usize| #[trigger] sorted_by_key(order, keys, kk).contains(x) <==> (order.contains(x) && 0
            <= keys[x as int] < kk) by {
            assert(a.contains(x) <==> (order.contains(x) && 0 <= keys[x as int] < kk - 1));
            assert(b.contains(x) <==> (order.contains(x) && keys[x as int] == kk - 1));
        }
    }
}

proof fn lemma_sorted_by_key_before(order: Seq<usize>, keys: Seq<int>, kk: int, q: int, x: usize)
    requires
        order.no_duplicates(),
        0 <= q < sorted_by_key(order, keys, kk).len(),
        order.contains(x),
        0 <= keys[x as int] < keys[sorted_by_key(order, keys, kk)[q] as int],
    ensures
        placed_before(sorted_by_key(order, keys, kk), q, x as int),
    decreases kk,
{
    let s = sorted_by_key(order, keys, kk);
    if kk > 0 {
        let a = sorted_by_key(order, keys, kk - 1);
        let b = key_block(order, keys, kk - 1);
        lemma_sorted_by_key_members(order, keys, kk);
        lemma_sorted_by_key_members(order, keys, kk - 1);
        lemma_key_block(order, keys, kk - 1);
        if q < a.len() {
            assert(s[q] == a[q]);
            lemma_sorted_by_key_before(order, keys, kk - 1, q, x);
            lemma_placed_before_grow(a, s, q, q, x as int);
        } else {
            assert(s[q] == b[q - a.len()]);
            assert(b.contains(b[q - a.len()]));
            assert(a.contains(x));
            let p = choose|p: int| 0 <= p < a.len() && a[p] == x;
            assert(s[p] == x);
        }
    }
}

proof fn lemma_sorted_by_key_sorted(order: Seq<usize>, keys: Seq<int>, kk: int, p: int, q: int)
    requires
        order.no_duplicates(),
        0 <= p < q < sorted_by_key(order, keys, kk).len(),
    ensures
        keys[sorted_by_key(order, keys, kk)[p] as int] <= keys[sorted_by_key(order, keys, kk)[q] as int],
    decreases kk,
{
    let s = sorted_by_key(order, keys, kk);
    if kk > 0 {
        let a = sorted_by_key(order, keys, kk - 1);
        let b = key_block(order, keys, kk - 1);
        lemma_sorted_by_key_members(order, keys, kk - 1);
        lemma_key_block(order, keys, kk - 1);
        if q < a.len() {
            assert(s[q] == a[q] && s[p] == a[p]);
            lemma_sorted_by_key_sorted(order, keys, kk - 1, p, q);
        } else {
            assert(s[q] == b[q - a.len()]);
            assert(b.contains(b[q - a.len()]));
            if p < a.len() {
                assert(s[p] == a[p]);
                assert(a.contains(a[p]));
            } else {
                assert(s[p] == b[p - a.len()]);
                assert(b.contains(b[p - a.len()]));
            }
        }
    }
}

/// Law: regrouping a dependency order by a key that places every item above
/// its sources gives again a dependency order.
pub proof fn lemma_regrouped_order_respects_dependencies(srcs: Seq<Seq<int>>, order: Seq<usize>, keys: Seq<int>, kk: int)
    requires
        srcs.len() <= usize::MAX,
        is_order_of(srcs, order),
        keys.len() == srcs.len(),
        forall|x: int| 0 <= x < srcs.len() ==> 0 <= #[trigger] keys[x] < kk,
        forall|x: int, k: int| 0 <= x < srcs.len() && 0 <= k < srcs[x].len() ==> keys[#[trigger] srcs[x][k]] < keys[x],
    ensures
        is_order_of(srcs, sorted_by_key(order, keys, kk)),
{
    let n = srcs.len();
    let s = sorted_by_key(order, keys, kk);
    lemma_sorted_by_key_members(order, keys, kk);
    assert forall|q: int| 0 <= q < s.len() implies s[q] < n by {
        assert(s.contains(s[q]));
        let p = choose|p: int| 0 <= p < order.len() && order[p] == s[q];
    }
    assert forall|x: usize| x < n implies s.contains(x) by {
        lemma_distinct_full(order, n, x);
    }
    lemma_cover_len(s, n);
    lemma_distinct_len_le(s, n);
    assert forall|q: int, k: int| 0 <= q < s.len() && 0 <= k < srcs[s[q] as int].len() implies placed_before(
        s,
        q,
        #[trigger] srcs[s[q] as int][k],
    ) by {
        let y = s[q];
        assert(s.contains(y));
        let py = choose|py: int| 0 <= py < order.len() && order[py] == y;
        assert(placed_before(order, py, srcs[order[py] as int][k]));
        let p = choose|p: int| 0 <= p < py && order[p] as int == srcs[y as int][k];
        let x = order[p];
        assert(keys[x as int] < keys[y as int]);
        lemma_sorted_by_key_before(order, keys, kk, q, x);
    }
}

/// Law: the regrouped order is sorted by key, so within a dependency level
/// higher priorities come first.
pub proof fn lemma_regrouped_order_sorted(order: Seq<usize>, keys: Seq<int>, kk: int, p: int, q: int)
    requires
        order.no_duplicates(),
        0 <= p < q < sorted_by_key(order, keys, kk).len(),
    ensures
        keys[sorted_by_key(order, keys, kk)[p] as int] <= keys[sorted_by_key(order, keys, kk)[q] as int],
{
    lemma_sorted_by_key_sorted(order, keys, kk, p, q);
}

} // verus!
