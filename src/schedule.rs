//! Dependency-ordered scheduling of update routines: a topological order of
//! the declared "runs after" edges, grouped into waves whose members neither
//! depend on each other nor touch the same storage in conflicting ways.
use vstd::prelude::*;
use vstd::set_lib::{lemma_len_subset, lemma_subset_equality};

verus! {

/// What a routine reads and writes, by storage identifier, and the indices
/// of the routines it runs after.
#[derive(Debug)]
pub struct SystemDecl {
    pub reads: Vec<u64>,
    pub writes: Vec<u64>,
    pub after: Vec<usize>,
}

/// Why a set of declarations cannot be scheduled.
#[derive(Clone, Copy, Debug, PartialEq, Eq, Structural)]
pub enum ScheduleError {
    /// The routine at this index runs after an index that names no routine.
    UnknownDependency(usize),
    /// The "runs after" edges form a cycle.
    Cycle,
}

/// An execution plan: `order` lists routine indices, and `waves[p]` is the
/// wave of `order[p]`; the routines of one wave may run concurrently.
#[derive(Debug)]
pub struct Schedule {
    pub order: Vec<usize>,
    pub waves: Vec<usize>,
}

/// Every "runs after" index names a declared routine.
pub open spec fn deps_known(d: Seq<SystemDecl>) -> bool {
    forall|i: int, j: int|
        0 <= i < d.len() && 0 <= j < d[i].after@.len() ==> #[trigger] d[i].after@[j] < d.len()
}

/// Routine `a` is declared to run after routine `b`.
pub open spec fn depends_on(d: Seq<SystemDecl>, a: int, b: int) -> bool {
    d[a].after@.contains(b as usize)
}

/// The two sequences share an element.
pub open spec fn overlap(xs: Seq<u64>, ys: Seq<u64>) -> bool {
    exists|i: int, j: int| 0 <= i < xs.len() && 0 <= j < ys.len() && xs[i] == ys[j]
}

/// Two routines may not run at once: one writes what the other reads or
/// writes.
pub open spec fn conflicts(a: SystemDecl, b: SystemDecl) -> bool {
    overlap(a.writes@, b.writes@) || overlap(a.writes@, b.reads@) || overlap(b.writes@, a.reads@)
}

/// `o` lists every routine once, each after all routines it runs after.
pub open spec fn is_order(d: Seq<SystemDecl>, o: Seq<usize>) -> bool {
    &&& o.len() == d.len()
    &&& o.no_duplicates()
    &&& forall|p: int| 0 <= p < o.len() ==> #[trigger] o[p] < d.len()
    &&& forall|p: int, q: int|
        0 <= p < o.len() && 0 <= q < o.len() && depends_on(d, o[q] as int, o[p] as int) ==> p < q
}

/// Waves over the order `o`: non-decreasing, each routine in a later wave
/// than those it runs after, and no two routines of one wave in conflict.
pub open spec fn waves_ok(d: Seq<SystemDecl>, o: Seq<usize>, w: Seq<usize>) -> bool {
    &&& w.len() == o.len()
    &&& forall|p: int, q: int| 0 <= p <= q < w.len() ==> w[p] <= w[q]
    &&& forall|p: int, q: int|
        0 <= p < o.len() && 0 <= q < o.len() && depends_on(d, o[q] as int, o[p] as int) ==> w[p]
            < w[q]
    &&& forall|p: int, q: int|
        0 <= p < q < o.len() && w[p] == w[q] ==> !conflicts(d[o[p] as int], d[o[q] as int])
}

/// The indices below `n`, as a set.
pub open spec fn below(n: nat) -> Set<usize> {
    Set::new(|i: usize| i < n)
}

proof fn lemma_below_len(n: nat)
    requires
        n <= usize::MAX + 1,
    ensures
        below(n).finite(),
        below(n).len() == n,
    decreases n,
{
    if n == 0 {
        assert(below(0) =~= Set::empty());
    } else {
        lemma_below_len((n - 1) as nat);
        assert(below((n - 1) as nat).insert((n - 1) as usize) =~= below(n));
    }
}

/// A duplicate-free list of `n` indices below `n` holds each of them.
proof fn lemma_covers(s: Seq<usize>, n: nat)
    requires
        s.no_duplicates(),
        s.len() == n,
        n <= usize::MAX + 1,
        forall|p: int| 0 <= p < s.len() ==> #[trigger] s[p] < n,
    ensures
        forall|i: usize| i < n ==> s.contains(i),
{
    lemma_below_len(n);
    s.unique_seq_to_set();
    assert(s.to_set().subset_of(below(n))) by {
        assert forall|i: usize| s.to_set().contains(i) implies below(n).contains(i) by {
            let p = choose|p: int| 0 <= p < s.len() && s[p] == i;
        }
    }
    lemma_len_subset(s.to_set(), below(n));
    lemma_subset_equality(s.to_set(), below(n));
    assert forall|i: usize| i < n implies s.contains(i) by {
        assert(below(n).contains(i));
        assert(s.to_set().contains(i));
    }
}

/// A duplicate-free list shorter than `n` misses an index below `n`.
proof fn lemma_misses(s: Seq<usize>, n: nat)
    requires
        s.no_duplicates(),
        s.len() < n,
        n <= usize::MAX + 1,
    ensures
        exists|i: usize| i < n && !s.contains(i),
{
    if forall|i: usize| i < n ==> s.contains(i) {
        lemma_below_len(n);
        s.unique_seq_to_set();
        assert(below(n).subset_of(s.to_set()));
        vstd::seq_lib::seq_to_set_is_finite(s);
        lemma_len_subset(below(n), s.to_set());
    }
}

/// Where every routine missing from the prefix `o` runs after another
/// missing routine, no order of the routines exists.
proof fn lemma_stuck_has_no_order(d: Seq<SystemDecl>, o: Seq<usize>, ord: Seq<usize>)
    requires
        deps_known(d),
        d.len() <= usize::MAX,
        o.no_duplicates(),
        o.len() < d.len(),
        forall|i: usize|
            i < d.len() && !o.contains(i) ==> exists|j: int|
                0 <= j < d[i as int].after@.len() && !o.contains(#[trigger] d[i as int].after@[j]),
    ensures
        !is_order(d, ord),
{
    if is_order(d, ord) {
        let n = d.len();
        lemma_covers(ord, n);
        lemma_all_in_prefix(d, o, ord, n as int);
        lemma_misses(o, n);
        let i = choose|i: usize| i < n && !o.contains(i);
        assert(ord.contains(i));
        let p = choose|p: int| 0 <= p < ord.len() && ord[p] == i;
    }
}

proof fn lemma_all_in_prefix(d: Seq<SystemDecl>, o: Seq<usize>, ord: Seq<usize>, k: int)
    requires
        deps_known(d),
        is_order(d, ord),
        forall|i: usize| i < d.len() ==> ord.contains(i),
        forall|i: usize|
            i < d.len() && !o.contains(i) ==> exists|j: int|
                0 <= j < d[i as int].after@.len() && !o.contains(#[trigger] d[i as int].after@[j]),
        0 <= k <= ord.len(),
    ensures
        forall|p: int| 0 <= p < k ==> o.contains(#[trigger] ord[p]),
    decreases k,
{
    if k > 0 {
        lemma_all_in_prefix(d, o, ord, k - 1);
        let i = ord[k - 1];
        if !o.contains(i) {
            let j = choose|j: int|
                0 <= j < d[i as int].after@.len() && !o.contains(#[trigger] d[i as int].after@[j]);
            let dep = d[i as int].after@[j];
            assert(dep < d.len());
            assert(ord.contains(dep));
            let p = choose|p: int| 0 <= p < ord.len() && ord[p] == dep;
            assert(d[i as int].after@[j] == ord[p]);
            assert(depends_on(d, ord[k - 1] as int, ord[p] as int));
        }
    }
}

/// Whether `xs` holds `k`.
fn holds(xs: &Vec<usize>, k: usize) -> (r: bool)
    ensures
        r == xs@.contains(k),
{
    let mut i: usize = 0;
    while i < xs.len()
        invariant
            i <= xs.len(),
            forall|j: int| 0 <= j < i ==> xs@[j] != k,
        decreases xs.len() - i,
    {
        if xs[i] == k {
            return true;
        }
        i += 1;
    }
    false
}

/// Whether the two lists share an element.
fn share(xs: &Vec<u64>, ys: &Vec<u64>) -> (r: bool)
    ensures
        r == overlap(xs@, ys@),
{
    let mut i: usize = 0;
    while i < xs.len()
        invariant
            i <= xs.len(),
            forall|a: int, b: int| 0 <= a < i && 0 <= b < ys.len() ==> xs@[a] != ys@[b],
        decreases xs.len() - i,
    {
        let mut j: usize = 0;
        while j < ys.len()
            invariant
                i < xs.len(),
                j <= ys.len(),
                forall|a: int, b: int| 0 <= a < i && 0 <= b < ys.len() ==> xs@[a] != ys@[b],
                forall|b: int| 0 <= b < j ==> xs@[i as int] != ys@[b],
            decreases ys.len() - j,
        {
            if xs[i] == ys[j] {
                assert(0 <= i < xs.len() && 0 <= j < ys.len() && xs@[i as int] == ys@[j as int]);
                return true;
            }
            j += 1;
        }
        i += 1;
    }
    false
}

/// Whether two routines may not run at once.
pub fn in_conflict(a: &SystemDecl, b: &SystemDecl) -> (r: bool)
    ensures
        r == conflicts(*a, *b),
{
    share(&a.writes, &b.writes) || share(&a.writes, &b.reads) || share(&b.writes, &a.reads)
}

/// Every routine in the prefix `o` of an order has its predecessors earlier
/// in it, and `placed` marks exactly the routines of `o`.
pub open spec fn prefix_ok(d: Seq<SystemDecl>, o: Seq<usize>, placed: Seq<bool>) -> bool {
    &&& placed.len() == d.len()
    &&& o.no_duplicates()
    &&& forall|p: int| 0 <= p < o.len() ==> #[trigger] o[p] < d.len()
    &&& forall|i: int| 0 <= i < d.len() ==> (#[trigger] placed[i] <==> o.contains(i as usize))
    &&& forall|p: int, q: int|
        0 <= p < o.len() && 0 <= q < o.len() && depends_on(d, o[q] as int, o[p] as int) ==> p < q
    &&& forall|q: int, j: int|
        0 <= q < o.len() && 0 <= j < d[o[q] as int].after@.len() ==> o.contains(
            #[trigger] d[o[q] as int].after@[j],
        )
}

/// Orders the routines so that each runs after those it names, and groups
/// the order into waves of routines that may run concurrently. Fails with
/// `UnknownDependency` exactly when an index names no routine, and with
/// `Cycle` exactly when the edges admit no order.
pub fn build_schedule(decls: &Vec<SystemDecl>) -> (r: Result<Schedule, ScheduleError>)
    ensures
        r matches Ok(s) ==> deps_known(decls@) && is_order(decls@, s.order@) && waves_ok(
            decls@,
            s.order@,
            s.waves@,
        ),
        r matches Err(ScheduleError::UnknownDependency(i)) ==> i < decls.len() && exists|j: int|
            0 <= j < decls@[i as int].after@.len() && #[trigger] decls@[i as int].after@[j]
                >= decls.len(),
        r matches Err(ScheduleError::Cycle) ==> deps_known(decls@) && forall|o: Seq<usize>|
            !#[trigger] is_order(decls@, o),
{
    let n = decls.len();
    let mut i: usize = 0;
    while i < n
        invariant
            n == decls.len(),
            i <= n,
            forall|a: int, j: int|
                0 <= a < i && 0 <= j < decls@[a].after@.len() ==> #[trigger] decls@[a].after@[j]
                    < n,
        decreases n - i,
    {
        let mut j: usize = 0;
        while j < decls[i].after.len()
            invariant
                n == decls.len(),
                i < n,
                j <= decls@[i as int].after@.len(),
                forall|a: int, b: int|
                    0 <= a < i && 0 <= b < decls@[a].after@.len() ==> #[trigger] decls@[a].after@[b]
                        < n,
                forall|b: int| 0 <= b < j ==> #[trigger] decls@[i as int].after@[b] < n,
            decreases decls@[i as int].after@.len() - j,
        {
            if decls[i].after[j] >= n {
                assert(decls@[i as int].after@[j as int] >= decls.len());
                assert(exists|jj: int|
                    0 <= jj < decls@[i as int].after@.len() && #[trigger] decls@[i as int].after@[jj]
                        >= decls.len());
                return Err(ScheduleError::UnknownDependency(i));
            }
            j += 1;
        }
        i += 1;
    }
    let order = match topological_order(decls) {
        Some(o) => o,
        None => {
            return Err(ScheduleError::Cycle);
        },
    };
    let waves = group_waves(decls, &order);
    Ok(Schedule { order, waves })
}

/// A topological order of the routines, or `None` where the edges admit none.
fn topological_order(decls: &Vec<SystemDecl>) -> (r: Option<Vec<usize>>)
    requires
        deps_known(decls@),
    ensures
        match r {
            Some(o) => is_order(decls@, o@),
            None => forall|o: Seq<usize>| !#[trigger] is_order(decls@, o),
        },
{
    let n = decls.len();
    let mut placed: Vec<bool> = Vec::new();
    let mut k: usize = 0;
    while k < n
        invariant
            k <= n,
            placed@.len() == k,
            forall|i: int| 0 <= i < k ==> !#[trigger] placed@[i],
        decreases n - k,
    {
        placed.push(false);
        k += 1;
    }
    let mut order: Vec<usize> = Vec::new();
    assert(prefix_ok(decls@, order@, placed@));
    while order.len() < n
        invariant
            n == decls.len(),
            order@.len() <= n,
            deps_known(decls@),
            prefix_ok(decls@, order@, placed@),
        decreases n - order.len(),
    {
        let mut found: Option<usize> = None;
        let mut i: usize = 0;
        while i < n
            invariant
                n == decls.len(),
                deps_known(decls@),
                prefix_ok(decls@, order@, placed@),
                i <= n,
                match found {
                    Some(f) => f < n && !placed@[f as int] && forall|j: int|
                        0 <= j < decls@[f as int].after@.len() ==> order@.contains(
                            #[trigger] decls@[f as int].after@[j],
                        ),
                    None => forall|a: usize|
                        a < i && !order@.contains(a) ==> exists|j: int|
                            0 <= j < decls@[a as int].after@.len() && !order@.contains(
                                #[trigger] decls@[a as int].after@[j],
                            ),
                },
            decreases n - i,
        {
            if found.is_none() && !placed[i] {
                let mut ready = true;
                let mut j: usize = 0;
                while j < decls[i].after.len()
                    invariant
                        n == decls.len(),
                        i < n,
                        deps_known(decls@),
                        prefix_ok(decls@, order@, placed@),
                        j <= decls@[i as int].after@.len(),
                        ready ==> forall|b: int|
                            0 <= b < j ==> order@.contains(#[trigger] decls@[i as int].after@[b]),
                        !ready ==> exists|b: int|
                            0 <= b < decls@[i as int].after@.len() && !order@.contains(
                                #[trigger] decls@[i as int].after@[b],
                            ),
                    decreases decls@[i as int].after@.len() - j,
                {
                    let dep = decls[i].after[j];
                    assert(dep < n);
                    if !placed[dep] {
                        ready = false;
                    }
                    j += 1;
                }
                if ready {
                    found = Some(i);
                } else {
                    assert(!order@.contains(i));
                }
            } else if found.is_none() {
                assert(order@.contains(i));
            }
            i += 1;
        }
        match found {
            Some(f) => {
                proof {
                    assert(!order@.contains(f));
                }
                let ghost old_order = order@;
                order.push(f);
                placed.set(f, true);
                proof {
                    assert forall|a: int| 0 <= a < n implies (#[trigger] placed@[a]
                        <==> order@.contains(a as usize)) by {
                        if a != f {
                            if order@.contains(a as usize) {
                                let p = choose|p: int| 0 <= p < order@.len() && order@[p] == a as usize;
                                assert(old_order[p] == a);
                            }
                            if old_order.contains(a as usize) {
                                let p = choose|p: int| 0 <= p < old_order.len() && old_order[p] == a as usize;
                                assert(order@[p] == a);
                            }
                        } else {
                            assert(order@[old_order.len() as int] == f);
                        }
                    }
                    assert forall|q: int, j: int|
                        0 <= q < order@.len() && 0 <= j < decls@[order@[q] as int].after@.len()
                            implies order@.contains(#[trigger] decls@[order@[q] as int].after@[j]) by {
                        let dep = decls@[order@[q] as int].after@[j];
                        assert(old_order.contains(dep));
                        let p = choose|p: int| 0 <= p < old_order.len() && old_order[p] == dep;
                        assert(order@[p] == dep);
                    }
                    assert forall|p: int, q: int|
                        0 <= p < order@.len() && 0 <= q < order@.len() && depends_on(
                            decls@,
                            order@[q] as int,
                            order@[p] as int,
                        ) implies p < q by {
                        if p == old_order.len() && q < old_order.len() {
                            let j = choose|j: int|
                                0 <= j < decls@[order@[q] as int].after@.len()
                                    && decls@[order@[q] as int].after@[j] == f;
                            assert(old_order.contains(decls@[old_order[q] as int].after@[j]));
                        }
                        if p == old_order.len() && q == old_order.len() {
                            let j = choose|j: int|
                                0 <= j < decls@[f as int].after@.len() && decls@[f as int].after@[j] == f;
                            assert(old_order.contains(decls@[f as int].after@[j]));
                        }
                    }
                }
            },
            None => {
                proof {
                    assert forall|o: Seq<usize>| !#[trigger] is_order(decls@, o) by {
                        lemma_stuck_has_no_order(decls@, order@, o);
                    }
                }
                return None;
            },
        }
    }
    Some(order)
}

/// Splits an order into waves: a routine opens a new wave when it runs
/// after, or conflicts with, a routine of the current one.
fn group_waves(decls: &Vec<SystemDecl>, order: &Vec<usize>) -> (w: Vec<usize>)
    requires
        is_order(decls@, order@),
    ensures
        waves_ok(decls@, order@, w@),
{
    let n = order.len();
    let mut waves: Vec<usize> = Vec::new();
    let mut start: usize = 0;
    let mut cur: usize = 0;
    let mut q: usize = 0;
    while q < n
        invariant
            n == order.len() == decls.len(),
            is_order(decls@, order@),
            q <= n,
            start <= q,
            cur <= start,
            waves@.len() == q,
            forall|p: int| 0 <= p < start ==> #[trigger] waves@[p] < cur,
            forall|p: int| start <= p < q ==> #[trigger] waves@[p] == cur,
            forall|p: int, r: int| 0 <= p <= r < q ==> waves@[p] <= waves@[r],
            forall|p: int, r: int|
                0 <= p < q && 0 <= r < q && depends_on(decls@, order@[r] as int, order@[p] as int)
                    ==> waves@[p] < waves@[r],
            forall|p: int, r: int|
                0 <= p < r < q && waves@[p] == waves@[r] ==> !conflicts(
                    decls@[order@[p] as int],
                    decls@[order@[r] as int],
                ),
        decreases n - q,
    {
        let s = order[q];
        let mut clash = false;
        let mut p = start;
        while p < q
            invariant
                n == order.len() == decls.len(),
                is_order(decls@, order@),
                start <= p <= q < n,
                s == order@[q as int],
                !clash ==> forall|a: int|
                    start <= a < p ==> !conflicts(decls@[order@[a] as int], decls@[s as int])
                        && !depends_on(decls@, s as int, #[trigger] order@[a] as int),
                clash ==> start < q,
            decreases q - p,
        {
            let other = order[p];
            if in_conflict(&decls[other], &decls[s]) || holds(&decls[s].after, other) {
                clash = true;
            }
            p += 1;
        }
        if clash {
            cur = cur + 1;
            start = q;
        }
        waves.push(cur);
        q += 1;
    }
    waves
}

/// `c` is a cycle of "runs after" edges: each routine of it runs after the
/// next, and the last after the first.
pub open spec fn is_cycle(d: Seq<SystemDecl>, c: Seq<usize>) -> bool {
    &&& c.len() >= 1
    &&& forall|k: int| 0 <= k < c.len() ==> #[trigger] c[k] < d.len()
    &&& forall|k: int| 0 <= k < c.len() - 1 ==> depends_on(d, #[trigger] c[k] as int, c[k + 1] as int)
    &&& depends_on(d, c[c.len() - 1] as int, c[0] as int)
}

/// Position of `x` in `o`.
pub open spec fn position_of(o: Seq<usize>, x: usize) -> int {
    choose|p: int| 0 <= p < o.len() && o[p] == x
}

/// Declarations whose edges hold a cycle, of any length, admit no order,
/// so scheduling them fails.
pub proof fn lemma_cycle_has_no_order(d: Seq<SystemDecl>, c: Seq<usize>, o: Seq<usize>)
    requires
        d.len() <= usize::MAX,
        is_cycle(d, c),
    ensures
        !is_order(d, o),
{
    if is_order(d, o) {
        lemma_covers(o, d.len());
        lemma_cycle_positions(d, c, o, c.len() - 1);
        let n = c.len();
        assert(o.contains(c[n - 1]));
        assert(o.contains(c[0]));
        let pl = position_of(o, c[n - 1]);
        let pf = position_of(o, c[0]);
        assert(depends_on(d, c[n - 1] as int, c[0] as int));
        assert(depends_on(d, o[pl] as int, o[pf] as int));
    }
}

/// Along a cycle, each step goes strictly back in any order.
proof fn lemma_cycle_positions(d: Seq<SystemDecl>, c: Seq<usize>, o: Seq<usize>, k: int)
    requires
        is_cycle(d, c),
        is_order(d, o),
        forall|i: usize| i < d.len() ==> o.contains(i),
        0 <= k < c.len(),
    ensures
        position_of(o, c[0]) >= position_of(o, c[k]) + k,
        0 <= position_of(o, c[k]) < o.len() && o[position_of(o, c[k])] == c[k],
    decreases k,
{
    assert(o.contains(c[k]));
    if k > 0 {
        lemma_cycle_positions(d, c, o, k - 1);
        assert(depends_on(d, c[k - 1] as int, c[k] as int));
        let p = position_of(o, c[k]);
        let q = position_of(o, c[k - 1]);
        assert(depends_on(d, o[q] as int, o[p] as int));
    }
}

} // verus!