use vstd::prelude::*;

verus! {

/// One transition of the world model: the action that triggers it and
/// the state it leads to.
#[derive(Debug)]
pub struct WorldEdge {
    pub action: String,
    pub target: usize,
}

/// One step of a discovered plan: the action to take and the state it
/// reaches.
#[derive(Debug)]
pub struct PathStep {
    pub action: String,
    pub state: usize,
}

/// The world model: a directed graph over numbered application
/// states, built once and read-only thereafter.
#[derive(Debug)]
pub struct WorldModel {
    pub edges: Vec<Vec<WorldEdge>>,
}

/// There is an edge from `a` to `b` in the adjacency view `g`.
pub open spec fn edge(g: Seq<Seq<int>>, a: int, b: int) -> bool {
    0 <= a < g.len() && g[a].contains(b)
}

/// `t` is reachable from `start` by a path of at most `k` edges.
pub open spec fn reach_within(g: Seq<Seq<int>>, start: int, t: int, k: nat) -> bool
    decreases k,
{
    t == start || (k > 0 && exists|m: int|
        #[trigger] edge(g, m, t) && reach_within(g, start, m, (k - 1) as nat))
}

/// `p` is the state sequence of a walk from `start` to `t`.
pub open spec fn is_path(g: Seq<Seq<int>>, start: int, p: Seq<int>, t: int) -> bool
    decreases p.len(),
{
    if p.len() == 0 {
        start == t
    } else {
        edge(g, start, p[0]) && is_path(g, p[0], p.drop_first(), t)
    }
}

/// Reachability is monotone in the step bound.
pub proof fn lemma_reach_mono(g: Seq<Seq<int>>, start: int, t: int, k1: nat, k2: nat)
    requires
        reach_within(g, start, t, k1),
        k1 <= k2,
    ensures
        reach_within(g, start, t, k2),
    decreases k1,
{
    if t != start {
        let m = choose|m: int| edge(g, m, t) && reach_within(g, start, m, (k1 - 1) as nat);
        lemma_reach_mono(g, start, m, (k1 - 1) as nat, (k2 - 1) as nat);
    }
}

/// Reachability in `k + 1` steps decomposes on the last edge:
/// the target is the start, or some predecessor reachable in `k`
/// steps has an edge to it.
pub proof fn lemma_reach_snoc(g: Seq<Seq<int>>, start: int, t: int, k: nat)
    ensures
        reach_within(g, start, t, (k + 1) as nat) <==> (t == start || exists|x: int|
            #[trigger] reach_within(g, start, x, k) && edge(g, x, t)),
    decreases k,
{
    if t != start {
        if reach_within(g, start, t, (k + 1) as nat) {
            let y = choose|y: int| edge(g, y, t) && reach_within(g, start, y, k);
            if k == 0 {
                assert(y == start);
                assert(reach_within(g, start, start, k) && edge(g, start, t));
            } else {
                lemma_reach_snoc(g, start, y, (k - 1) as nat);
                if y == start {
                    assert(reach_within(g, start, y, k) && edge(g, y, t));
                } else if reach_within(g, start, y, (k - 1) as nat) {
                    assert(reach_within(g, start, y, k)) by {
                        lemma_reach_mono(g, start, y, (k - 1) as nat, k);
                    }
                    assert(reach_within(g, start, y, k) && edge(g, y, t));
                }
            }
        }
        if exists|x: int| #[trigger] reach_within(g, start, x, k) && edge(g, x, t) {
            let x = choose|x: int| #[trigger] reach_within(g, start, x, k) && edge(g, x, t);
            lemma_reach_extend(g, start, x, t, k);
        }
    }
}

/// Appending one edge to a reachable state keeps it reachable with
/// one more step.
pub proof fn lemma_reach_extend(g: Seq<Seq<int>>, start: int, x: int, t: int, k: nat)
    requires
        reach_within(g, start, x, k),
        edge(g, x, t),
    ensures
        reach_within(g, start, t, (k + 1) as nat),
    decreases k,
{
    assert(edge(g, x, t) && reach_within(g, start, x, k));
}

/// A walk of `p.len()` edges witnesses reachability within that bound.
pub proof fn lemma_path_reaches(g: Seq<Seq<int>>, start: int, p: Seq<int>, t: int)
    requires
        is_path(g, start, p, t),
    ensures
        reach_within(g, start, t, p.len() as nat),
    decreases p.len(),
{
    if p.len() > 0 {
        lemma_path_reaches(g, p[0], p.drop_first(), t);
        if t != p[0] {
            assert(reach_within(g, p[0], t, (p.len() - 1) as nat));
        }
        lemma_reach_prepend(g, start, p[0], t, (p.len() - 1) as nat);
    }
}

/// Prepending one edge to a walk keeps the target reachable with one
/// more step.
pub proof fn lemma_reach_prepend(g: Seq<Seq<int>>, s: int, y: int, t: int, k: nat)
    requires
        edge(g, s, y),
        reach_within(g, y, t, k),
    ensures
        reach_within(g, s, t, (k + 1) as nat),
    decreases k,
{
    if t == y {
        assert(edge(g, s, t) && reach_within(g, s, s, k));
        assert(reach_within(g, s, t, (k + 1) as nat));
    } else {
        let m = choose|m: int| edge(g, m, t) && reach_within(g, y, m, (k - 1) as nat);
        lemma_reach_prepend(g, s, y, m, (k - 1) as nat);
        assert(edge(g, m, t) && reach_within(g, s, m, k));
    }
}

/// Once no state gains reachability from one more step, no number of
/// steps reaches anything new.
pub proof fn lemma_reach_fixpoint(g: Seq<Seq<int>>, start: int, d: nat, t: int, k: nat)
    requires
        d >= 1,
        forall|v: int| #[trigger] reach_within(g, start, v, d) ==> reach_within(
            g,
            start,
            v,
            (d - 1) as nat,
        ),
        reach_within(g, start, t, k),
    ensures
        reach_within(g, start, t, (d - 1) as nat),
    decreases k,
{
    if t == start {
    } else if k <= d - 1 {
        lemma_reach_mono(g, start, t, k, (d - 1) as nat);
    } else {
        let m = choose|m: int| edge(g, m, t) && reach_within(g, start, m, (k - 1) as nat);
        lemma_reach_fixpoint(g, start, d, m, (k - 1) as nat);
        lemma_reach_extend(g, start, m, t, (d - 1) as nat);
        assert(reach_within(g, start, t, d));
    }
}

/// Extending a walk by one edge extends the state sequence by its
/// target.
pub proof fn lemma_path_snoc(g: Seq<Seq<int>>, start: int, p: Seq<int>, v: int, t: int)
    requires
        is_path(g, start, p, v),
        edge(g, v, t),
    ensures
        is_path(g, start, p.push(t), t),
    decreases p.len(),
{
    if p.len() == 0 {
        assert(start == v);
        assert(p.push(t)[0] == t);
        assert(p.push(t).drop_first() =~= Seq::<int>::empty());
        assert(is_path(g, t, p.push(t).drop_first(), t));
        assert(is_path(g, start, p.push(t), t));
    } else {
        lemma_path_snoc(g, p[0], p.drop_first(), v, t);
        assert(p.push(t)[0] == p[0]);
        assert(p.push(t).drop_first() =~= p.drop_first().push(t));
        assert(is_path(g, p[0], p.push(t).drop_first(), t));
        assert(is_path(g, start, p.push(t), t));
    }
}

/// A nonempty walk ends at its target.
pub proof fn lemma_path_last(g: Seq<Seq<int>>, start: int, p: Seq<int>, t: int)
    requires
        is_path(g, start, p, t),
        p.len() > 0,
    ensures
        p.last() == t,
    decreases p.len(),
{
    if p.len() == 1 {
        assert(is_path(g, p[0], p.drop_first(), t));
        assert(p.drop_first().len() == 0);
    } else {
        lemma_path_last(g, p[0], p.drop_first(), t);
        assert(p.last() == p.drop_first().last());
    }
}

/// Number of set entries in a boolean sequence.
pub open spec fn count_true(s: Seq<bool>) -> int
    decreases s.len(),
{
    if s.len() == 0 {
        0
    } else {
        count_true(s.drop_last()) + (if s.last() { 1int } else { 0int })
    }
}

proof fn lemma_count_true_le_len(s: Seq<bool>)
    ensures
        0 <= count_true(s) <= s.len(),
    decreases s.len(),
{
    if s.len() > 0 {
        lemma_count_true_le_len(s.drop_last());
    }
}

proof fn lemma_count_true_update(s: Seq<bool>, i: int)
    requires
        0 <= i < s.len(),
        !s[i],
    ensures
        count_true(s.update(i, true)) == count_true(s) + 1,
    decreases s.len(),
{
    let t = s.update(i, true);
    if i == s.len() - 1 {
        assert(t.drop_last() =~= s.drop_last());
    } else {
        assert(t.drop_last() =~= s.drop_last().update(i, true));
        assert(t.last() == s.last());
        lemma_count_true_update(s.drop_last(), i);
    }
}

/// Copies a plan step for step.
fn copy_path(p: &Vec<PathStep>) -> (r: Vec<PathStep>)
    ensures
        r@ == p@,
{
    let mut r: Vec<PathStep> = Vec::new();
    let mut i: usize = 0;
    while i < p.len()
        invariant
            i <= p@.len(),
            r@.len() == i,
            forall|k: int| 0 <= k < i ==> r@[k] == p@[k],
        decreases p@.len() - i,
    {
        r.push(PathStep { action: p[i].action.clone(), state: p[i].state });
        i = i + 1;
    }
    proof {
        assert(r@ =~= p@);
    }
    r
}

impl WorldModel {
    /// Number of states.
    pub open spec fn n(self) -> int {
        self.edges@.len() as int
    }

    /// The adjacency view: for each state, the targets of its edges.
    pub open spec fn targets(self) -> Seq<Seq<int>> {
        Seq::new(self.edges@.len() as nat, |s: int| Seq::new(self.edges@[s]@.len() as nat, |j: int| self.edges@[s]@[j].target as int))
    }

    /// There is an edge from `a` to `b` carrying this action label.
    pub open spec fn has_labeled_edge(self, a: int, action: Seq<char>, b: int) -> bool {
        &&& 0 <= a < self.n()
        &&& exists|j: int|
            0 <= j < self.edges@[a]@.len() && (#[trigger] self.edges@[a]@[j]).action@ == action
                && self.edges@[a]@[j].target as int == b
    }

    /// Every step of the plan follows a labelled edge of the model.
    pub open spec fn labeled_path_ok(self, start: int, p: Seq<PathStep>) -> bool {
        forall|k: int|
            0 <= k < p.len() ==> self.has_labeled_edge(
                if k == 0 { start } else { p[k - 1].state as int },
                (#[trigger] p[k]).action@,
                p[k].state as int,
            )
    }

    /// The states visited by a plan, in order.
    pub open spec fn states_of(p: Seq<PathStep>) -> Seq<int> {
        Seq::new(p.len(), |k: int| p[k].state as int)
    }

    /// A well-formed model: every edge points at a state, and the
    /// state count is bounded so that plan lengths stay small.
    pub open spec fn wf(self) -> bool {
        &&& self.edges@.len() <= 1_000_000
        &&& forall|s: int, j: int|
            0 <= s < self.edges@.len() && 0 <= j < self.edges@[s]@.len() ==> (
            #[trigger] self.edges@[s]@[j]).target < self.edges@.len()
    }

    /// An empty model with `n` isolated states.
    pub fn with_states(n: usize) -> (r: WorldModel)
        requires
            n <= 1_000_000,
        ensures
            r.wf(),
            r.n() == n,
            forall|s: int| 0 <= s < n ==> r.edges@[s]@.len() == 0,
    {
        let mut edges: Vec<Vec<WorldEdge>> = Vec::new();
        let mut i: usize = 0;
        while i < n
            invariant
                i <= n,
                edges@.len() == i,
                forall|s: int| 0 <= s < i ==> (#[trigger] edges@[s])@.len() == 0,
            decreases n - i,
        {
            edges.push(Vec::new());
            i = i + 1;
        }
        WorldModel { edges }
    }

    /// Every successor of this state is marked visited.
    pub open spec fn succs_visited(self, visited: Seq<bool>, state: int) -> bool {
        forall|j: int|
            0 <= j < self.edges@[state]@.len() ==> visited[(#[trigger] self.edges@[state]@[j]).target as int]
    }

    /// Finds a shortest plan from `start` to `target` by breadth-first
    /// search over the model.
    ///
    /// A returned plan follows labelled edges of the model, ends at the
    /// target, and no walk of the model from `start` to `target` is
    /// shorter; `None` means no walk reaches the target at all.
    #[verifier::rlimit(100)]
    pub fn find_path(&self, start: usize, target: usize) -> (r: Option<Vec<PathStep>>)
        requires
            self.wf(),
            (start as int) < self.n(),
            (target as int) < self.n(),
        ensures
            match r {
                Some(p) => {
                    &&& self.labeled_path_ok(start as int, p@)
                    &&& is_path(
                        self.targets(),
                        start as int,
                        WorldModel::states_of(p@),
                        target as int,
                    )
                    &&& (p@.len() == 0 ==> start == target)
                    &&& (p@.len() > 0 ==> p@.last().state == target)
                    &&& p@.len() < self.n()
                    &&& forall|q: Seq<int>|
                        is_path(self.targets(), start as int, q, target as int)
                            ==> q.len() >= p@.len()
                },
                None => forall|q: Seq<int>|
                    !is_path(self.targets(), start as int, q, target as int),
            },
    {
        let ghost g = self.targets();
        let n = self.edges.len();
        let mut visited: Vec<bool> = Vec::new();
        let mut vi: usize = 0;
        while vi < n
            invariant
                vi <= n,
                visited@.len() == vi,
                forall|k: int| 0 <= k < vi ==> !visited@[k],
                count_true(visited@) == 0,
            decreases n - vi,
        {
            let ghost vprev = visited@;
            visited.push(false);
            proof {
                assert(visited@.drop_last() =~= vprev);
            }
            vi = vi + 1;
        }
        proof {
            lemma_count_true_update(visited@, start as int);
        }
        visited.set(start, true);
        let mut vcount: usize = 1;
        let mut frontier: Vec<(usize, Vec<PathStep>)> = Vec::new();
        frontier.push((start, Vec::new()));
        let ghost mut d: nat = 0;
        proof {
            assert(reach_within(g, start as int, start as int, 0));
            assert(frontier@[0].0 == start);
            assert(frontier@[0].1@.len() == 0);
            assert forall|v: int|
                0 <= v < n && #[trigger] reach_within(g, start as int, v, d) && (d > 0
                    ==> !reach_within(g, start as int, v, (d - 1) as nat)) implies exists|fi: int|
                0 <= fi < frontier@.len() && (#[trigger] frontier@[fi]).0 == v by {
                assert(v == start as int);
                assert(frontier@[0].0 == v);
            }
        }
        while frontier.len() > 0
            invariant
                self.wf(),
                g == self.targets(),
                n == self.edges@.len(),
                (start as int) < n,
                (target as int) < n,
                visited@.len() == n,
                vcount == count_true(visited@),
                vcount <= n,
                d <= n,
                frontier@.len() > 0 ==> d + 1 <= vcount,
                d == 0 ==> frontier@.len() > 0,
                // visited is exactly the states reachable within d steps
                forall|v: int|
                    0 <= v < n ==> visited@[v] == reach_within(g, start as int, v, d),
                // every frontier entry sits at exact distance d, with a
                // valid labelled plan of length d behind it
                forall|fi: int|
                    0 <= fi < frontier@.len() ==> {
                        let v = (#[trigger] frontier@[fi]).0 as int;
                        let p = frontier@[fi].1;
                        &&& 0 <= v < n
                        &&& reach_within(g, start as int, v, d)
                        &&& (d > 0 ==> !reach_within(g, start as int, v, (d - 1) as nat))
                        &&& p@.len() == d
                        &&& self.labeled_path_ok(start as int, p@)
                        &&& is_path(g, start as int, WorldModel::states_of(p@), v)
                    },
                // every state at exact distance d is in the frontier
                forall|v: int|
                    0 <= v < n && #[trigger] reach_within(g, start as int, v, d) && (d > 0
                        ==> !reach_within(g, start as int, v, (d - 1) as nat)) ==> exists|fi: int|
                        0 <= fi < frontier@.len() && (#[trigger] frontier@[fi]).0 == v,
                // the target was not found at any earlier level
                d > 0 ==> !reach_within(g, start as int, target as int, (d - 1) as nat),
            decreases 2 * (n - vcount) + (if frontier@.len() > 0 { 1int } else { 0int }),
        {
            let flen = frontier.len();
            // scan the frontier for the target
            let mut found: Option<usize> = None;
            let mut si: usize = 0;
            while si < flen
                invariant
                    si <= flen,
                    flen == frontier@.len(),
                    match found {
                        Some(k) => k < flen && frontier@[k as int].0 == target,
                        None => forall|k: int| 0 <= k < si ==> frontier@[k].0 != target,
                    },
                decreases flen - si,
            {
                if frontier[si].0 == target {
                    found = Some(si);
                    si = flen;
                } else {
                    si = si + 1;
                }
            }
            match found {
                Some(k) => {
                    let p = copy_path(&frontier[k].1);
                    proof {
                        if p@.len() > 0 {
                            lemma_path_last(
                                g,
                                start as int,
                                WorldModel::states_of(p@),
                                target as int,
                            );
                            assert(WorldModel::states_of(p@).last() == p@.last().state as int);
                        }
                        assert forall|q: Seq<int>|
                            is_path(g, start as int, q, target as int) implies q.len()
                            >= p@.len() by {
                            lemma_path_reaches(g, start as int, q, target as int);
                            if q.len() < d {
                                lemma_reach_mono(
                                    g,
                                    start as int,
                                    target as int,
                                    q.len() as nat,
                                    (d - 1) as nat,
                                );
                            }
                        }
                    }
                    return Some(p);
                },
                None => {},
            }
            proof {
                // the target is not at exact distance d either
                assert(!reach_within(g, start as int, target as int, d)) by {
                    if reach_within(g, start as int, target as int, d) {
                        let fi = choose|fi: int|
                            0 <= fi < frontier@.len() && (#[trigger] frontier@[fi]).0 == target;
                    }
                }
            }
            // expand the frontier one level
            let ghost visited_pre = visited@;
            let ghost vcount_pre = vcount;
            let mut next: Vec<(usize, Vec<PathStep>)> = Vec::new();
            let mut fi: usize = 0;
            while fi < flen
                invariant
                    self.wf(),
                    g == self.targets(),
                    n == self.edges@.len(),
                    (start as int) < n,
                    visited@.len() == n,
                    visited_pre.len() == n,
                    fi <= flen,
                    flen == frontier@.len(),
                    vcount == count_true(visited@),
                    vcount <= n,
                    vcount == vcount_pre + next@.len(),
                    forall|v: int|
                        0 <= v < n ==> visited_pre[v] == reach_within(g, start as int, v, d),
                    forall|fj: int|
                        0 <= fj < frontier@.len() ==> {
                            let v = (#[trigger] frontier@[fj]).0 as int;
                            let p = frontier@[fj].1;
                            &&& 0 <= v < n
                            &&& reach_within(g, start as int, v, d)
                            &&& p@.len() == d
                            &&& self.labeled_path_ok(start as int, p@)
                            &&& is_path(g, start as int, WorldModel::states_of(p@), v)
                        },
                    // visited = pre-visited plus exactly the states in next
                    forall|v: int|
                        0 <= v < n ==> visited@[v] == (visited_pre[v] || exists|k: int|
                            0 <= k < next@.len() && (#[trigger] next@[k]).0 == v),
                    // every next entry is a fresh state one step further,
                    // with a valid plan of length d + 1
                    forall|k: int|
                        0 <= k < next@.len() ==> {
                            let v = (#[trigger] next@[k]).0 as int;
                            let p = next@[k].1;
                            &&& 0 <= v < n
                            &&& !visited_pre[v]
                            &&& reach_within(g, start as int, v, (d + 1) as nat)
                            &&& p@.len() == d + 1
                            &&& self.labeled_path_ok(start as int, p@)
                            &&& is_path(g, start as int, WorldModel::states_of(p@), v)
                        },
                    // every state at exact distance d is in the frontier
                    forall|w: int|
                        0 <= w < n && #[trigger] reach_within(g, start as int, w, d) && (d > 0
                            ==> !reach_within(g, start as int, w, (d - 1) as nat)) ==> exists|
                        fj: int,
                    |
                        0 <= fj < frontier@.len() && (#[trigger] frontier@[fj]).0 == w,
                    // processed frontier entries have all successors marked
                    forall|fj: int|
                        0 <= fj < fi ==> self.succs_visited(
                            visited@,
                            (#[trigger] frontier@[fj]).0 as int,
                        ),
                decreases flen - fi,
            {
                let v = frontier[fi].0;
                let row_len = self.edges[v].len();
                let mut j: usize = 0;
                while j < row_len
                    invariant
                        self.wf(),
                        g == self.targets(),
                        n == self.edges@.len(),
                        (start as int) < n,
                        visited@.len() == n,
                        visited_pre.len() == n,
                        fi < flen,
                        flen == frontier@.len(),
                        v == frontier@[fi as int].0,
                        0 <= v < n,
                        row_len == self.edges@[v as int]@.len(),
                        j <= row_len,
                        vcount == count_true(visited@),
                        vcount <= n,
                        vcount == vcount_pre + next@.len(),
                        forall|w: int|
                            0 <= w < n ==> visited_pre[w] == reach_within(g, start as int, w, d),
                        forall|fj: int|
                            0 <= fj < frontier@.len() ==> {
                                let u = (#[trigger] frontier@[fj]).0 as int;
                                let p = frontier@[fj].1;
                                &&& 0 <= u < n
                                &&& reach_within(g, start as int, u, d)
                                &&& p@.len() == d
                                &&& self.labeled_path_ok(start as int, p@)
                                &&& is_path(g, start as int, WorldModel::states_of(p@), u)
                            },
                        forall|w: int|
                            0 <= w < n ==> visited@[w] == (visited_pre[w] || exists|k: int|
                                0 <= k < next@.len() && (#[trigger] next@[k]).0 == w),
                        forall|k: int|
                            0 <= k < next@.len() ==> {
                                let w = (#[trigger] next@[k]).0 as int;
                                let p = next@[k].1;
                                &&& 0 <= w < n
                                &&& !visited_pre[w]
                                &&& reach_within(g, start as int, w, (d + 1) as nat)
                                &&& p@.len() == d + 1
                                &&& self.labeled_path_ok(start as int, p@)
                                &&& is_path(g, start as int, WorldModel::states_of(p@), w)
                            },
                        // every state at exact distance d is in the frontier
                        forall|w: int|
                            0 <= w < n && #[trigger] reach_within(g, start as int, w, d) && (d > 0
                                ==> !reach_within(g, start as int, w, (d - 1) as nat)) ==> exists|
                            fj: int,
                        |
                            0 <= fj < frontier@.len() && (#[trigger] frontier@[fj]).0 == w,
                        forall|fj: int|
                            0 <= fj < fi ==> self.succs_visited(
                                visited@,
                                (#[trigger] frontier@[fj]).0 as int,
                            ),
                        // the successors of the current entry seen so far
                        forall|j2: int|
                            0 <= j2 < j ==> visited@[(#[trigger] self.edges@[v as int]@[j2]).target as int],
                    decreases row_len - j,
                {
                    let tgt = self.edges[v][j].target;
                    proof {
                        assert(self.edges@[v as int]@[j as int].target == tgt);
                        assert((tgt as int) < n);
                        assert(g[v as int][j as int] == tgt as int);
                        assert(g[v as int].contains(tgt as int));
                        assert(edge(g, v as int, tgt as int));
                    }
                    if !visited[tgt] {
                        let ghost visited_before = visited@;
                        let ghost next_before = next@;
                        proof {
                            lemma_count_true_update(visited@, tgt as int);
                            lemma_count_true_le_len(visited@.update(tgt as int, true));
                        }
                        visited.set(tgt, true);
                        vcount = vcount + 1;
                        let mut newp = copy_path(&frontier[fi].1);
                        let ghost oldp = newp@;
                        newp.push(PathStep { action: self.edges[v][j].action.clone(), state: tgt });
                        next.push((tgt, newp));
                        proof {
                            assert(next@.len() == next_before.len() + 1);
                            assert(next@[next@.len() - 1].0 == tgt);
                            assert forall|w: int| 0 <= w < n implies visited@[w] == (
                            visited_pre[w] || exists|k: int|
                                0 <= k < next@.len() && (#[trigger] next@[k]).0 == w) by {
                                if w == tgt as int {
                                    assert(next@[next@.len() - 1].0 == w);
                                } else {
                                    assert(visited@[w] == visited_before[w]);
                                    if exists|k: int|
                                        0 <= k < next@.len() && (#[trigger] next@[k]).0 == w {
                                        let k = choose|k: int|
                                            0 <= k < next@.len() && (#[trigger] next@[k]).0 == w;
                                        assert(k < next_before.len());
                                        assert(next_before[k] == next@[k]);
                                    }
                                    if exists|k: int|
                                        0 <= k < next_before.len() && (#[trigger] next_before[k]).0
                                            == w {
                                        let k = choose|k: int|
                                            0 <= k < next_before.len() && (
                                            #[trigger] next_before[k]).0 == w;
                                        assert(next@[k] == next_before[k]);
                                    }
                                }
                            }
                            lemma_reach_extend(g, start as int, v as int, tgt as int, d);
                            assert(WorldModel::states_of(next@.last().1@) =~= WorldModel::states_of(
                                oldp,
                            ).push(tgt as int));
                            lemma_path_snoc(
                                g,
                                start as int,
                                WorldModel::states_of(oldp),
                                v as int,
                                tgt as int,
                            );
                            let p2 = next@.last().1@;
                            assert forall|k2: int| 0 <= k2 < p2.len() implies self.has_labeled_edge(
                                if k2 == 0 { start as int } else { p2[k2 - 1].state as int },
                                (#[trigger] p2[k2]).action@,
                                p2[k2].state as int,
                            ) by {
                                if k2 < p2.len() - 1 {
                                    assert(p2[k2] == oldp[k2]);
                                } else {
                                    let prev = if k2 == 0 { start as int } else { p2[k2 - 1].state as int };
                                    assert(prev == v as int) by {
                                        if oldp.len() > 0 {
                                            assert(is_path(g, start as int, WorldModel::states_of(oldp), v as int));
                                            lemma_path_last(g, start as int, WorldModel::states_of(oldp), v as int);
                                            assert(WorldModel::states_of(oldp)[oldp.len() - 1] == oldp[oldp.len() - 1].state as int);
                                        }
                                    }
                                    assert(self.edges@[v as int]@[j as int].action@ == p2[k2].action@);
                                    assert(self.edges@[v as int]@[j as int].target as int == p2[k2].state as int);
                                }
                            }
                        }
                    }
                    j = j + 1;
                }
                fi = fi + 1;
            }
            proof {
                let ghost d_old = d;
                d = d + 1;
                assert forall|w: int| 0 <= w < n implies visited@[w] == reach_within(
                    g,
                    start as int,
                    w,
                    d,
                ) by {
                    lemma_reach_snoc(g, start as int, w, d_old);
                    if visited@[w] {
                        if visited_pre[w] {
                            lemma_reach_mono(g, start as int, w, d_old, d);
                        }
                    } else {
                        if reach_within(g, start as int, w, d) {
                            if w == start as int {
                                assert(visited_pre[w]);
                            } else {
                                let x = choose|x: int|
                                    #[trigger] reach_within(g, start as int, x, d_old) && edge(
                                        g,
                                        x,
                                        w,
                                    );
                                assert(0 <= x < n);
                                assert(visited_pre[x]);
                                // x sits at some exact level; if below d_old the
                                // edge pulls w within d_old, else x was in the
                                // frontier and its successors are all marked
                                if d_old > 0 && reach_within(g, start as int, x, (d_old - 1) as nat) {
                                    lemma_reach_extend(g, start as int, x, w, (d_old - 1) as nat);
                                    assert(visited_pre[w]);
                                } else {
                                    let fj = choose|fj: int|
                                        0 <= fj < frontier@.len() && (#[trigger] frontier@[fj]).0
                                            == x;
                                    assert(self.succs_visited(visited@, x));
                                    let j3 = choose|j3: int|
                                        0 <= j3 < g[x].len() && g[x][j3] == w;
                                    assert(self.edges@[x]@[j3].target as int == w);
                                    assert(visited@[w]);
                                }
                            }
                        }
                    }
                }
                assert forall|w: int|
                    0 <= w < n && #[trigger] reach_within(g, start as int, w, d) && (d > 0
                        ==> !reach_within(g, start as int, w, (d - 1) as nat)) implies exists|
                    k: int,
                |
                    0 <= k < next@.len() && (#[trigger] next@[k]).0 == w by {
                    assert(!visited_pre[w]);
                    assert(visited@[w]);
                }
                assert(!reach_within(g, start as int, target as int, (d - 1) as nat));
            }
            frontier = next;
        }
        proof {
            assert(d >= 1);
            assert forall|q: Seq<int>| !is_path(g, start as int, q, target as int) by {
                if is_path(g, start as int, q, target as int) {
                    lemma_path_reaches(g, start as int, q, target as int);
                    assert forall|w: int| #[trigger] reach_within(g, start as int, w, d)
                        implies reach_within(g, start as int, w, (d - 1) as nat) by {
                        if 0 <= w < n {
                            if d > 0 && !reach_within(g, start as int, w, (d - 1) as nat) {
                                let fi = choose|fi: int|
                                    0 <= fi < frontier@.len() && (#[trigger] frontier@[fi]).0 == w;
                            }
                        } else {
                            assert(w != start as int);
                            if d > 0 {
                                let m = choose|m: int|
                                    #[trigger] edge(g, m, w) && reach_within(
                                        g,
                                        start as int,
                                        m,
                                        (d - 1) as nat,
                                    );
                                let j3 = choose|j3: int| 0 <= j3 < g[m].len() && g[m][j3] == w;
                                assert(self.edges@[m]@[j3].target as int == w);
                                assert(false);
                            }
                        }
                    }
                    lemma_reach_fixpoint(g, start as int, d, target as int, q.len() as nat);
                }
            }
        }
        None
    }

    /// Adds one labelled transition.
    pub fn add_edge(&mut self, from: usize, action: &str, to: usize)
        requires
            old(self).wf(),
            from < old(self).n(),
            to < old(self).n(),
        ensures
            final(self).wf(),
            final(self).n() == old(self).n(),
            final(self).edges@[from as int]@.len() == old(self).edges@[from as int]@.len() + 1,
            final(self).edges@[from as int]@.take(
                old(self).edges@[from as int]@.len() as int,
            ) == old(self).edges@[from as int]@,
            final(self).edges@[from as int]@.last().action@ == action@,
            final(self).edges@[from as int]@.last().target == to,
            forall|s: int|
                0 <= s < old(self).n() && s != from ==> final(self).edges@[s] == old(
                    self,
                ).edges@[s],
            final(self).has_labeled_edge(from as int, action@, to as int),
            forall|a: int, act: Seq<char>, b: int|
                old(self).has_labeled_edge(a, act, b) ==> final(self).has_labeled_edge(a, act, b),
    {
        let step = WorldEdge { action: String::from_str(action), target: to };
        let mut row = self.edges.remove(from);
        row.push(step);
        self.edges.insert(from, row);
        proof {
            assert(self.edges@[from as int]@.take(old(self).edges@[from as int]@.len() as int)
                =~= old(self).edges@[from as int]@);
            assert forall|s: int, j: int|
                0 <= s < self.edges@.len() && 0 <= j < self.edges@[s]@.len() implies (
            #[trigger] self.edges@[s]@[j]).target < self.edges@.len() by {
                if s != from {
                    assert(self.edges@[s] == old(self).edges@[s]);
                }
            }
            let jn = self.edges@[from as int]@.len() - 1;
            assert(self.edges@[from as int]@[jn].action@ == action@);
            assert(self.has_labeled_edge(from as int, action@, to as int));
            assert forall|a: int, act: Seq<char>, b: int|
                old(self).has_labeled_edge(a, act, b) implies self.has_labeled_edge(
                a,
                act,
                b,
            ) by {
                let j = choose|j: int|
                    0 <= j < old(self).edges@[a]@.len() && (#[trigger] old(self).edges@[a]@[j]).action@
                        == act && old(self).edges@[a]@[j].target as int == b;
                if a == from {
                    assert(self.edges@[a]@.take(old(self).edges@[a]@.len() as int)[j] == old(
                        self,
                    ).edges@[a]@[j]);
                    assert(self.edges@[a]@[j] == old(self).edges@[a]@[j]);
                } else {
                    assert(self.edges@[a] == old(self).edges@[a]);
                }
            }
        }
    }
}

} // verus!
