//! Predecessors, reachability and dominance of a body's control-flow
//! graph.
//!
//! The index over one body is computed once by [`Topology::new`] and read
//! for the rest of that body's analysis. Dominance is stated against
//! paths: block `a` dominates block `b` when `b` is reachable and every
//! path from the entry to `b` passes through `a`. An unreachable `b` is
//! dominated by nothing, so a dominance query on it fails closed.

use vstd::prelude::*;

use crate::ir::{edge_between, has_edge, spec_succs, succ_at, succ_count, Body};

verus! {

/// Whether `s` is a path of `body`: it starts at the entry and follows
/// one edge per step.
pub open spec fn is_path(body: Body, s: Seq<usize>) -> bool {
    &&& s.len() >= 1
    &&& s[0] == body.entry
    &&& forall|i: int| 0 <= i < s.len() - 1 ==> #[trigger] has_edge(body, s[i], s[i + 1])
}

/// Whether path `s` never touches the blocked block, when one is given.
pub open spec fn path_avoids(s: Seq<usize>, a: Option<usize>) -> bool {
    forall|i: int| 0 <= i < s.len() ==> a != Some(#[trigger] s[i])
}

/// Whether some path reaches `b` without touching the blocked block.
pub open spec fn spec_reaches_avoiding(body: Body, b: usize, a: Option<usize>) -> bool {
    exists|s: Seq<usize>| #[trigger] is_path(body, s) && s.last() == b && path_avoids(s, a)
}

/// Whether some path reaches `b` at all.
pub open spec fn spec_reaches(body: Body, b: usize) -> bool {
    spec_reaches_avoiding(body, b, None)
}

/// Block `a` dominates block `b`: `b` is reachable from the entry, and
/// every path from the entry to `b` passes through `a`.
pub open spec fn spec_dominates(body: Body, a: usize, b: usize) -> bool {
    &&& spec_reaches(body, b)
    &&& forall|s: Seq<usize>| #[trigger] is_path(body, s) && s.last() == b ==> s.contains(a)
}

/// The first predecessor of `b` in host order: the lowest-numbered block
/// with an edge to `b`, searching upward from block `k`.
pub open spec fn first_pred_from(body: Body, b: usize, k: nat) -> Option<usize>
    decreases body.blocks@.len() - k,
{
    if k >= body.blocks@.len() {
        None
    } else if has_edge(body, k as usize, b) {
        Some(k as usize)
    } else {
        first_pred_from(body, b, k + 1)
    }
}

/// The first predecessor of `b` in host order, if `b` has one. The
/// backward walks of the engine follow exactly this block, a documented
/// source of false negatives at merge points.
pub open spec fn first_pred(body: Body, b: usize) -> Option<usize> {
    first_pred_from(body, b, 0)
}

fn first_pred_search(body: &Body, b: usize, k: usize) -> (r: Option<usize>)
    ensures
        r == first_pred_from(*body, b, k as nat),
    decreases body.blocks@.len() - k,
{
    if k >= body.blocks.len() {
        None
    } else if edge_between(body, k, b) {
        Some(k)
    } else {
        first_pred_search(body, b, k + 1)
    }
}

/// Executable form of [`first_pred`].
pub fn first_pred_of(body: &Body, b: usize) -> (r: Option<usize>)
    ensures
        r == first_pred(*body, b),
{
    first_pred_search(body, b, 0)
}

proof fn lemma_first_pred_from_edge(body: Body, b: usize, k: nat)
    requires
        first_pred_from(body, b, k) is Some,
    ensures
        has_edge(body, first_pred_from(body, b, k).unwrap(), b),
    decreases body.blocks@.len() - k,
{
    if k >= body.blocks@.len() {
    } else if has_edge(body, k as usize, b) {
    } else {
        lemma_first_pred_from_edge(body, b, k + 1);
    }
}

/// A first predecessor really is a predecessor: it carries an edge to
/// `b`, and in particular it is a block of the body.
pub proof fn lemma_first_pred_edge(body: Body, b: usize)
    requires
        first_pred(body, b) is Some,
    ensures
        has_edge(body, first_pred(body, b).unwrap(), b),
        (first_pred(body, b).unwrap() as nat) < body.blocks@.len(),
{
    lemma_first_pred_from_edge(body, b, 0);
}

/// What the predecessor list of block `b` promises: every entry is an
/// edge source, every edge source is an entry, and entries strictly
/// ascend, so the head is the host-order first predecessor.
pub open spec fn pred_list_ok(body: Body, b: usize, l: Seq<usize>) -> bool {
    &&& forall|i: int| 0 <= i < l.len() ==> has_edge(body, #[trigger] l[i], b)
    &&& forall|p: usize| has_edge(body, p, b) ==> l.contains(p)
    &&& forall|i: int, j: int| 0 <= i < j < l.len() ==> l[i] < l[j]
}

/// The predecessor map of a body: for each block, the blocks with an edge
/// to it, in ascending host order.
pub fn predecessors(body: &Body) -> (r: Vec<Vec<usize>>)
    ensures
        r@.len() == body.blocks@.len(),
        forall|b: int| 0 <= b < r@.len() ==> pred_list_ok(*body, b as usize, #[trigger] r@[b]@),
{
    let n = body.blocks.len();
    let mut r: Vec<Vec<usize>> = Vec::new();
    let mut b: usize = 0;
    while b < n
        invariant
            n == body.blocks@.len(),
            r@.len() == b,
            b <= n,
            forall|bb: int| 0 <= bb < b ==> pred_list_ok(*body, bb as usize, #[trigger] r@[bb]@),
        decreases n - b,
    {
        let mut l: Vec<usize> = Vec::new();
        let mut p: usize = 0;
        while p < n
            invariant
                n == body.blocks@.len(),
                p <= n,
                forall|i: int| 0 <= i < l@.len() ==> has_edge(*body, #[trigger] l@[i], b),
                forall|pp: usize| pp < p && has_edge(*body, pp, b) ==> l@.contains(pp),
                forall|i: int| 0 <= i < l@.len() ==> l@[i] < p,
                forall|i: int, j: int| 0 <= i < j < l@.len() ==> l@[i] < l@[j],
            decreases n - p,
        {
            if edge_between(body, p, b) {
                let ghost prior = l@;
                l.push(p);
                proof {
                    assert forall|pp: usize| pp < p + 1 && has_edge(*body, pp, b) implies l@.contains(
                        pp,
                    ) by {
                        if pp < p {
                            let i = choose|i: int| 0 <= i < prior.len() && prior[i] == pp;
                            assert(l@[i] == pp);
                        } else {
                            assert(l@[l@.len() - 1] == pp);
                        }
                    }
                }
            }
            p = p + 1;
        }
        proof {
            assert forall|pp: usize| has_edge(*body, pp, b) implies l@.contains(pp) by {
                assert((pp as nat) < body.blocks@.len());
            }
            assert(pred_list_ok(*body, b, l@));
        }
        r.push(l);
        b = b + 1;
    }
    r
}

/// How many entries of `s` are true.
pub open spec fn trues(s: Seq<bool>) -> nat
    decreases s.len(),
{
    if s.len() == 0 {
        0
    } else {
        trues(s.drop_last()) + if s.last() {
            1nat
        } else {
            0nat
        }
    }
}

proof fn lemma_trues_le_len(s: Seq<bool>)
    ensures
        trues(s) <= s.len(),
    decreases s.len(),
{
    if s.len() > 0 {
        lemma_trues_le_len(s.drop_last());
    }
}

proof fn lemma_trues_update_true(s: Seq<bool>, i: int)
    requires
        0 <= i < s.len(),
        !s[i],
    ensures
        trues(s.update(i, true)) == trues(s) + 1,
    decreases s.len(),
{
    let t = s.update(i, true);
    if i == s.len() - 1 {
        assert(t.drop_last() =~= s.drop_last());
        assert(t.last());
    } else {
        assert(t.drop_last() =~= s.drop_last().update(i, true));
        lemma_trues_update_true(s.drop_last(), i);
        assert(t.last() == s.last());
    }
}

proof fn lemma_trues_lt_len(s: Seq<bool>, i: int)
    requires
        0 <= i < s.len(),
        !s[i],
    ensures
        trues(s) < s.len(),
    decreases s.len(),
{
    if i == s.len() - 1 {
        lemma_trues_le_len(s.drop_last());
    } else {
        lemma_trues_lt_len(s.drop_last(), i);
    }
}

/// A vector of `n` entries, all false.
pub(crate) fn falses(n: usize) -> (r: Vec<bool>)
    ensures
        r@.len() == n,
        forall|i: int| 0 <= i < n ==> !r@[i],
        trues(r@) == 0,
    decreases 0int,
{
    let mut r: Vec<bool> = Vec::new();
    let mut k: usize = 0;
    while k < n
        invariant
            k <= n,
            r@.len() == k,
            forall|i: int| 0 <= i < k ==> !r@[i],
            trues(r@) == 0,
        decreases n - k,
    {
        let ghost prior = r@;
        r.push(false);
        proof {
            assert(r@.drop_last() =~= prior);
        }
        k = k + 1;
    }
    r
}

/// Whether every visited block keeps its successors inside the visited
/// set, up to the blocked block.
pub open spec fn succ_closed(body: Body, visited: Seq<bool>, a: Option<usize>, x: int) -> bool {
    forall|j: int|
        0 <= j < spec_succs(body.blocks@[x].term).len() ==> {
            let y = #[trigger] spec_succs(body.blocks@[x].term)[j];
            a == Some(y) || visited[y as int]
        }
}

proof fn lemma_reach_extend(body: Body, a: Option<usize>, x: usize, y: usize)
    requires
        spec_reaches_avoiding(body, x, a),
        has_edge(body, x, y),
        a != Some(y),
    ensures
        spec_reaches_avoiding(body, y, a),
{
    let s = choose|s: Seq<usize>| #[trigger] is_path(body, s) && s.last() == x && path_avoids(s, a);
    let s2 = s.push(y);
    assert(s2[0] == body.entry);
    assert forall|i: int| 0 <= i < s2.len() - 1 implies #[trigger] has_edge(
        body,
        s2[i],
        s2[i + 1],
    ) by {
        if i < s.len() - 1 {
            assert(s2[i] == s[i] && s2[i + 1] == s[i + 1]);
        } else {
            assert(s2[i] == s.last() && s2[i + 1] == y);
        }
    }
    assert forall|i: int| 0 <= i < s2.len() implies a != Some(#[trigger] s2[i]) by {
        if i < s.len() {
            assert(s2[i] == s[i]);
        }
    }
    assert(is_path(body, s2) && s2.last() == y && path_avoids(s2, a));
}

proof fn lemma_closed_covers(body: Body, visited: Seq<bool>, a: Option<usize>, s: Seq<usize>)
    requires
        body.wf(),
        visited.len() == body.blocks@.len(),
        forall|x: int|
            0 <= x < visited.len() && #[trigger] visited[x] ==> succ_closed(body, visited, a, x),
        a != Some(body.entry) ==> visited[body.entry as int],
        is_path(body, s),
        path_avoids(s, a),
    ensures
        visited[s.last() as int],
    decreases s.len(),
{
    if s.len() == 1 {
        assert(a != Some(s[0]));
    } else {
        let s0 = s.drop_last();
        assert(is_path(body, s0)) by {
            assert forall|i: int| 0 <= i < s0.len() - 1 implies #[trigger] has_edge(
                body,
                s0[i],
                s0[i + 1],
            ) by {
                assert(s0[i] == s[i] && s0[i + 1] == s[i + 1]);
                assert(has_edge(body, s[i], s[i + 1]));
            }
        }
        assert forall|i: int| 0 <= i < s0.len() implies a != Some(#[trigger] s0[i]) by {
            assert(s0[i] == s[i]);
        }
        lemma_closed_covers(body, visited, a, s0);
        let x = s[s.len() - 2];
        assert(has_edge(body, s[s.len() - 2], s[s.len() - 2 + 1]));
        assert(s[s.len() - 2 + 1] == s.last());
        assert(has_edge(body, x, s.last()));
        assert(visited[x as int]);
        assert(succ_closed(body, visited, a, x as int));
        let j = choose|j: int|
            0 <= j < spec_succs(body.blocks@[x as int].term).len() && spec_succs(
                body.blocks@[x as int].term,
            )[j] == s.last();
        assert(a == Some(spec_succs(body.blocks@[x as int].term)[j]) || visited[s.last() as int]);
        assert(a != Some(s.last()));
    }
}

/// The blocks a path from the entry can reach without touching `a`;
/// with no blocked block, plain reachability.
fn reachable_avoiding(body: &Body, a: Option<usize>) -> (r: Vec<bool>)
    requires
        body.wf(),
    ensures
        r@.len() == body.blocks@.len(),
        forall|b: int|
            0 <= b < r@.len() ==> r@[b] == spec_reaches_avoiding(*body, b as usize, a),
{
    broadcast use vstd::seq_lib::lemma_seq_contains_after_push;

    let n = body.blocks.len();
    let mut visited = falses(n);
    let mut stack: Vec<usize> = Vec::new();
    let mut count: usize = 0;
    let entry_blocked = match a {
        Option::Some(z) => z == body.entry,
        Option::None => false,
    };
    if !entry_blocked {
        proof {
            lemma_trues_update_true(visited@, body.entry as int);
            let s0: Seq<usize> = seq![body.entry];
            assert(is_path(*body, s0) && s0.last() == body.entry && path_avoids(s0, a));
        }
        visited[body.entry] = true;
        count = 1;
        stack.push(body.entry);
    }
    while stack.len() > 0
        invariant
            body.wf(),
            n == body.blocks@.len(),
            visited@.len() == n,
            count == trues(visited@),
            count <= n,
            entry_blocked == (a == Some(body.entry)),
            !entry_blocked ==> visited@[body.entry as int],
            forall|k: int| 0 <= k < stack@.len() ==> (#[trigger] stack@[k]) < n,
            forall|k: int| 0 <= k < stack@.len() ==> visited@[#[trigger] stack@[k] as int],
            a matches Some(z) && z < n ==> !visited@[a.unwrap() as int],
            forall|b: int|
                0 <= b < n && #[trigger] visited@[b] ==> spec_reaches_avoiding(
                    *body,
                    b as usize,
                    a,
                ),
            forall|x: int|
                0 <= x < n && #[trigger] visited@[x] && !stack@.contains(x as usize)
                    ==> succ_closed(*body, visited@, a, x),
        decreases 2 * (n - count) + stack@.len(),
    {
        let ghost stack0 = stack@;
        let x = stack.pop().unwrap();
        proof {
            assert forall|xx: int|
                0 <= xx < n && #[trigger] visited@[xx] && !stack@.contains(xx as usize) && xx != x
                    as int implies succ_closed(*body, visited@, a, xx) by {
                if stack0.contains(xx as usize) {
                    let i = choose|i: int| 0 <= i < stack0.len() && stack0[i] == xx as usize;
                    assert(i < stack0.len() - 1);
                    assert(stack@[i] == xx as usize);
                    assert(stack@.contains(xx as usize));
                }
            }
        }
        let ghost m0: int = 2 * (n as int - count as int) + stack@.len() as int;
        let t = &body.blocks[x].term;
        let m = succ_count(t);
        let mut j: usize = 0;
        while j < m
            invariant
                body.wf(),
                n == body.blocks@.len(),
                visited@.len() == n,
                count == trues(visited@),
                count <= n,
                entry_blocked == (a == Some(body.entry)),
                !entry_blocked ==> visited@[body.entry as int],
                x < n,
                visited@[x as int],
                t == &body.blocks@[x as int].term,
                m == spec_succs(*t).len(),
                j <= m,
                2 * (n as int - count as int) + stack@.len() <= m0,
                forall|k: int| 0 <= k < stack@.len() ==> (#[trigger] stack@[k]) < n,
                forall|k: int| 0 <= k < stack@.len() ==> visited@[#[trigger] stack@[k] as int],
                a matches Some(z) && z < n ==> !visited@[a.unwrap() as int],
                forall|b: int|
                    0 <= b < n && #[trigger] visited@[b] ==> spec_reaches_avoiding(
                        *body,
                        b as usize,
                        a,
                    ),
                forall|jj: int|
                    0 <= jj < j ==> {
                        let y = #[trigger] spec_succs(body.blocks@[x as int].term)[jj];
                        a == Some(y) || visited@[y as int]
                    },
                forall|xx: int|
                    0 <= xx < n && #[trigger] visited@[xx] && !stack@.contains(xx as usize) && xx
                        != x ==> succ_closed(*body, visited@, a, xx),
            decreases m - j,
        {
            let y = succ_at(t, j);
            proof {
                assert(body.succs_in_range(x as int));
                assert(y < n);
            }
            let blocked = match a {
                Option::Some(z) => y == z,
                Option::None => false,
            };
            if !blocked && !visited[y] {
                proof {
                    lemma_trues_lt_len(visited@, y as int);
                    lemma_trues_update_true(visited@, y as int);
                    lemma_reach_extend(*body, a, x, y);
                }
                let ghost vis0 = visited@;
                let ghost stk0 = stack@;
                visited[y] = true;
                count = count + 1;
                stack.push(y);
                proof {
                    assert(visited@ == vis0.update(y as int, true));
                    assert(stack@ == stk0.push(y));
                    assert(stack@[stack@.len() - 1] == y);
                    assert(stack@.contains(y));
                    assert forall|xx: int|
                        0 <= xx < n && #[trigger] visited@[xx] && !stack@.contains(xx as usize)
                            && xx != x as int implies succ_closed(*body, visited@, a, xx) by {
                        assert(xx != y as int);
                        assert(vis0.update(y as int, true)[xx] == vis0[xx]);
                        assert(vis0[xx]);
                        assert(!stk0.push(y).contains(xx as usize));
                        if stk0.contains(xx as usize) {
                            let i = choose|i: int| 0 <= i < stk0.len() && stk0[i] == xx as usize;
                            assert(stk0.push(y)[i] == stk0[i]);
                            assert(stk0.push(y).contains(xx as usize));
                        }
                        assert(!stk0.contains(xx as usize));
                        assert(succ_closed(*body, vis0, a, xx));
                        assert(body.succs_in_range(xx));
                        assert forall|jx: int|
                            0 <= jx < spec_succs(body.blocks@[xx].term).len() implies {
                            let yy = #[trigger] spec_succs(body.blocks@[xx].term)[jx];
                            a == Some(yy) || visited@[yy as int]
                        } by {
                            let yy = spec_succs(body.blocks@[xx].term)[jx];
                            assert(yy < n);
                            if a != Some(yy) {
                                assert(vis0[yy as int]);
                                if yy == y {
                                    assert(vis0.update(y as int, true)[y as int]);
                                } else {
                                    let yi = yy as int;
                                    assert(vis0.update(y as int, true)[yi] == vis0[yi]);
                                }
                                assert(visited@[yy as int]);
                            }
                        }
                    }
                }
            }
            j = j + 1;
        }
        proof {
            assert forall|xx: int|
                0 <= xx < n && #[trigger] visited@[xx] && !stack@.contains(
                    xx as usize,
                ) implies succ_closed(*body, visited@, a, xx) by {
                if xx == x {
                    assert(succ_closed(*body, visited@, a, x as int));
                }
            }
        }
    }
    proof {
        assert forall|b: int|
            0 <= b < n implies visited@[b] == spec_reaches_avoiding(*body, b as usize, a) by {
            if !visited@[b] {
                if spec_reaches_avoiding(*body, b as usize, a) {
                    let s = choose|s: Seq<usize>|
                        #[trigger] is_path(*body, s) && s.last() == b as usize && path_avoids(s, a);
                    lemma_closed_covers(*body, visited@, a, s);
                }
            }
        }
    }
    visited
}

/// The topology index of one body: predecessor lists, reachability, and
/// the dominance relation, computed once and then only read.
pub struct Topology {
    pub preds: Vec<Vec<usize>>,
    pub reach: Vec<bool>,
    pub avoid: Vec<Vec<bool>>,
}

impl Topology {
    /// What the index promises about the body it was built from.
    pub open spec fn wf_for(self, body: Body) -> bool {
        let n = body.blocks@.len();
        &&& self.preds@.len() == n
        &&& forall|b: int|
            0 <= b < n ==> pred_list_ok(body, b as usize, #[trigger] self.preds@[b]@)
        &&& self.reach@.len() == n
        &&& forall|b: int|
            0 <= b < n ==> #[trigger] self.reach@[b] == spec_reaches(body, b as usize)
        &&& self.avoid@.len() == n
        &&& forall|ai: int| 0 <= ai < n ==> (#[trigger] self.avoid@[ai]@).len() == n
        &&& forall|ai: int, b: int|
            0 <= ai < n && 0 <= b < n ==> #[trigger] self.avoid@[ai]@[b]
                == spec_reaches_avoiding(body, b as usize, Some(ai as usize))
    }

    /// Builds the index for `body`.
    pub fn new(body: &Body) -> (r: Topology)
        requires
            body.wf(),
        ensures
            r.wf_for(*body),
    {
        let n = body.blocks.len();
        let preds = predecessors(body);
        let reach = reachable_avoiding(body, None);
        let mut avoid: Vec<Vec<bool>> = Vec::new();
        let mut ai: usize = 0;
        while ai < n
            invariant
                body.wf(),
                n == body.blocks@.len(),
                avoid@.len() == ai,
                ai <= n,
                forall|aa: int| 0 <= aa < ai ==> (#[trigger] avoid@[aa]@).len() == n,
                forall|aa: int, b: int|
                    0 <= aa < ai && 0 <= b < n ==> #[trigger] avoid@[aa]@[b]
                        == spec_reaches_avoiding(*body, b as usize, Some(aa as usize)),
            decreases n - ai,
        {
            avoid.push(reachable_avoiding(body, Some(ai)));
            ai = ai + 1;
        }
        Topology { preds, reach, avoid }
    }

    /// Whether block `a` dominates block `b`: every path from the entry
    /// to `b` passes through `a`, and `b` is reachable at all. For an
    /// unreachable `b` the answer is false, never an error: the caller
    /// treats such a site as unguarded.
    pub fn dominates(&self, body: &Body, a: usize, b: usize) -> (r: bool)
        requires
            self.wf_for(*body),
            (a as nat) < body.blocks@.len(),
            (b as nat) < body.blocks@.len(),
        ensures
            r == spec_dominates(*body, a, b),
    {
        let r = self.reach[b] && !self.avoid[a][b];
        proof {
            lemma_dominates_means_no_avoiding_path(*body, a, b);
        }
        r
    }
}

/// Dominance restated through avoiding paths: `a` dominates `b` exactly
/// when `b` is reachable and no path reaches `b` while avoiding `a`.
pub proof fn lemma_dominates_means_no_avoiding_path(body: Body, a: usize, b: usize)
    ensures
        spec_dominates(body, a, b) == (spec_reaches(body, b) && !spec_reaches_avoiding(
            body,
            b,
            Some(a),
        )),
{
    if spec_reaches(body, b) {
        if spec_reaches_avoiding(body, b, Some(a)) {
            let s = choose|s: Seq<usize>|
                #[trigger] is_path(body, s) && s.last() == b && path_avoids(s, Some(a));
            assert(!s.contains(a)) by {
                if s.contains(a) {
                    let i = choose|i: int| 0 <= i < s.len() && s[i] == a;
                    assert(Some(a) != Some(s[i]));
                }
            }
            assert(!spec_dominates(body, a, b));
        } else {
            assert forall|s: Seq<usize>|
                #[trigger] is_path(body, s) && s.last() == b implies s.contains(a) by {
                if !s.contains(a) {
                    assert forall|i: int| 0 <= i < s.len() implies Some(a) != Some(
                        #[trigger] s[i],
                    ) by {
                        if s[i] == a {
                            assert(s.contains(a));
                        }
                    }
                    assert(is_path(body, s) && s.last() == b && path_avoids(s, Some(a)));
                    assert(spec_reaches_avoiding(body, b, Some(a)));
                }
            }
        }
    }
}

} // verus!
