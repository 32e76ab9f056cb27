//! The dominance-gated check verifier.
//!
//! Given the alias set a trace produced and the block of the sensitive
//! use, the verifier walks backward from the use site along first
//! predecessors, looking for an equality or inequality comparison whose
//! operand descends, through its own short backward alias chain, from
//! one of the alias locals. The first comparison found is the candidate
//! guard, and the verdict is whether its block dominates the use site:
//! a check that does not dominate the use runs on only some paths and
//! guarantees nothing. When no comparison is found the verdict is
//! false — the verifier fails closed.

use vstd::prelude::*;

use crate::ir::{
    base_of, op_place, operand_place, place_base, place_views, same_base, BinOpKind, Body, Operand,
    Place, PlaceModel, Rvalue, Statement, Terminator,
};
use crate::topology::{
    falses, first_pred, first_pred_of, lemma_first_pred_edge, spec_dominates, Topology,
};
use crate::trace::start_visited;

verus! {

/// Whether the base local of `place` is one of `locals`.
pub open spec fn base_in(place: PlaceModel, locals: Seq<usize>) -> bool {
    match base_of(place) {
        Some(l) => locals.contains(l),
        None => false,
    }
}

/// Executable form of [`base_in`].
pub fn place_base_in(place: &Place, locals: &Vec<usize>) -> (r: bool)
    ensures
        r == base_in(place@, locals@),
{
    match place_base(place) {
        Option::Some(l) => {
            let mut k: usize = 0;
            while k < locals.len()
                invariant
                    k <= locals@.len(),
                    base_of(place@) == Some(l),
                    forall|i: int| 0 <= i < k ==> locals@[i] != l,
                decreases locals@.len() - k,
            {
                if locals[k] == l {
                    proof {
                        assert(locals@[k as int] == l);
                        assert(locals@.contains(l));
                        assert(base_of(place@) == Some(l));
                    }
                    return true;
                }
                k = k + 1;
            }
            false
        },
        Option::None => false,
    }
}

/// The backward walk of [`spec_moved_from`]: scan assignments of `block`
/// from `i - 1` downward, following copy, move and reference chains of
/// the tracked place, and report whether any link's base stands in
/// `locals`. Blocks already visited, and walks out of fuel, end the
/// search with a negative answer.
pub open spec fn moved_scan(
    body: Body,
    block: int,
    i: int,
    place: PlaceModel,
    locals: Seq<usize>,
    visited: Seq<bool>,
    fuel: nat,
) -> bool
    decreases fuel, i,
{
    if i > 0 {
        let stmt = body.blocks@[block].stmts@[i - 1];
        if base_of(stmt.dest@) == base_of(place) {
            let q_opt: Option<Place> = match stmt.rv {
                Rvalue::UseOp { op } => op_place(op),
                Rvalue::RefOf { place: q } => Some(q),
                _ => None,
            };
            match q_opt {
                Some(qp) => {
                    if base_in(qp@, locals) {
                        true
                    } else {
                        moved_scan(body, block, i - 1, qp@, locals, visited, fuel)
                    }
                },
                None => moved_scan(body, block, i - 1, place, locals, visited, fuel),
            }
        } else {
            moved_scan(body, block, i - 1, place, locals, visited, fuel)
        }
    } else {
        match first_pred(body, block as usize) {
            None => false,
            Some(p) => {
                if fuel == 0 || visited[p as int] {
                    false
                } else {
                    moved_scan(
                        body,
                        p as int,
                        body.blocks@[p as int].stmts@.len() as int,
                        place,
                        locals,
                        visited.update(p as int, true),
                        (fuel - 1) as nat,
                    )
                }
            },
        }
    }
}

/// Whether `place`, traced backward from `block` through copy, move and
/// reference assignments, descends from one of the `locals`.
pub open spec fn spec_moved_from(body: Body, block: usize, place: PlaceModel, locals: Seq<
    usize,
>) -> bool {
    if base_in(place, locals) {
        true
    } else {
        moved_scan(
            body,
            block as int,
            body.blocks@[block as int].stmts@.len() as int,
            place,
            locals,
            start_visited(body.blocks@.len(), block),
            body.blocks@.len(),
        )
    }
}

fn moved_go<'a>(
    body: &'a Body,
    block: usize,
    i: usize,
    place: &'a Place,
    locals: &Vec<usize>,
    visited: Vec<bool>,
    fuel: usize,
) -> (r: bool)
    requires
        body.wf(),
        (block as nat) < body.blocks@.len(),
        (i as nat) <= body.blocks@[block as int].stmts@.len(),
        visited@.len() == body.blocks@.len(),
    ensures
        r == moved_scan(*body, block as int, i as int, place@, locals@, visited@, fuel as nat),
    decreases fuel, i,
{
    if i > 0 {
        let stmt = &body.blocks[block].stmts[i - 1];
        if same_base(&stmt.dest, place) {
            let q_opt: Option<&'a Place> = match &stmt.rv {
                Rvalue::UseOp { op } => operand_place(op),
                Rvalue::RefOf { place: q } => Some(q),
                _ => None,
            };
            match q_opt {
                Option::Some(q) => {
                    if place_base_in(q, locals) {
                        true
                    } else {
                        moved_go(body, block, i - 1, q, locals, visited, fuel)
                    }
                },
                Option::None => moved_go(body, block, i - 1, place, locals, visited, fuel),
            }
        } else {
            moved_go(body, block, i - 1, place, locals, visited, fuel)
        }
    } else {
        match first_pred_of(body, block) {
            Option::None => false,
            Option::Some(p) => {
                proof {
                    lemma_first_pred_edge(*body, block);
                }
                if fuel == 0 || visited[p] {
                    false
                } else {
                    let mut visited2 = visited;
                    visited2[p] = true;
                    let np = body.blocks[p].stmts.len();
                    moved_go(body, p, np, place, locals, visited2, fuel - 1)
                }
            },
        }
    }
}

/// Executable form of [`spec_moved_from`].
pub fn moved_from(body: &Body, block: usize, place: &Place, locals: &Vec<usize>) -> (r: bool)
    requires
        body.wf(),
        (block as nat) < body.blocks@.len(),
    ensures
        r == spec_moved_from(*body, block, place@, locals@),
{
    if place_base_in(place, locals) {
        return true;
    }
    let n = body.blocks.len();
    let mut visited = falses(n);
    visited[block] = true;
    proof {
        assert(visited@ =~= start_visited(body.blocks@.len(), block));
    }
    let np = body.blocks[block].stmts.len();
    moved_go(body, block, np, place, locals, visited, n)
}

/// Whether an operand of a comparison descends from one of `locals`.
pub open spec fn cmp_operand_hits(body: Body, block: usize, op: Operand, locals: Seq<usize>) -> bool {
    match op_place(op) {
        Some(pl) => spec_moved_from(body, block, pl@, locals),
        None => false,
    }
}

/// Executable form of [`cmp_operand_hits`].
pub fn operand_hits(body: &Body, block: usize, op: &Operand, locals: &Vec<usize>) -> (r: bool)
    requires
        body.wf(),
        (block as nat) < body.blocks@.len(),
    ensures
        r == cmp_operand_hits(*body, block, *op, locals@),
{
    match operand_place(op) {
        Option::Some(pl) => moved_from(body, block, pl, locals),
        Option::None => false,
    }
}

/// Whether an assignment is a comparison on the traced value: an
/// equality or inequality whose side descends from one of `locals`.
pub open spec fn stmt_is_guard(body: Body, block: usize, stmt: Statement, locals: Seq<
    usize,
>) -> bool {
    match stmt.rv {
        Rvalue::BinaryOp { op, lhs, rhs } => (op is CmpEq || op is CmpNe) && (cmp_operand_hits(
            body,
            block,
            lhs,
            locals,
        ) || cmp_operand_hits(body, block, rhs, locals)),
        _ => false,
    }
}

/// Whether a terminator is a comparison call on the traced value: a
/// static call to one of the configured comparison callees whose first
/// or second argument descends from one of `locals`.
pub open spec fn term_is_guard(
    body: Body,
    block: usize,
    term: Terminator,
    cmp_calls: Seq<u64>,
    locals: Seq<usize>,
) -> bool {
    match term {
        Terminator::Call { func: Operand::ConstFn { id }, args, .. } => cmp_calls.contains(id)
            && args@.len() >= 2 && (cmp_operand_hits(body, block, args@[0], locals)
            || cmp_operand_hits(body, block, args@[1], locals)),
        _ => false,
    }
}

/// The backward search for the candidate guard: statements of each block
/// in program order, then the terminator, then the first predecessor.
pub open spec fn guard_search(
    body: Body,
    cmp_calls: Seq<u64>,
    block: int,
    j: int,
    locals: Seq<usize>,
    visited: Seq<bool>,
    fuel: nat,
) -> Option<usize>
    decreases fuel, body.blocks@[block].stmts@.len() - j,
{
    let stmts = body.blocks@[block].stmts@;
    if j < stmts.len() {
        if stmt_is_guard(body, block as usize, stmts[j], locals) {
            Some(block as usize)
        } else {
            guard_search(body, cmp_calls, block, j + 1, locals, visited, fuel)
        }
    } else if term_is_guard(body, block as usize, body.blocks@[block].term, cmp_calls, locals) {
        Some(block as usize)
    } else {
        match first_pred(body, block as usize) {
            None => None,
            Some(p) => {
                if fuel == 0 || visited[p as int] {
                    None
                } else {
                    guard_search(
                        body,
                        cmp_calls,
                        p as int,
                        0,
                        locals,
                        visited.update(p as int, true),
                        (fuel - 1) as nat,
                    )
                }
            },
        }
    }
}

/// The block holding the first comparison on the traced value found
/// walking backward from `use_block`, if any.
pub open spec fn spec_find_guard(
    body: Body,
    cmp_calls: Seq<u64>,
    use_block: usize,
    locals: Seq<usize>,
) -> Option<usize> {
    guard_search(
        body,
        cmp_calls,
        use_block as int,
        0,
        locals,
        start_visited(body.blocks@.len(), use_block),
        body.blocks@.len(),
    )
}

/// What the verifier answers: the first comparison found must dominate
/// the use site; with no comparison found, the answer is false.
pub open spec fn spec_is_guarded(
    body: Body,
    cmp_calls: Seq<u64>,
    use_block: usize,
    locals: Seq<usize>,
) -> bool {
    match spec_find_guard(body, cmp_calls, use_block, locals) {
        None => false,
        Some(c) => spec_dominates(body, c, use_block),
    }
}

fn guard_go(
    body: &Body,
    cmp_calls: &Vec<u64>,
    block: usize,
    j: usize,
    locals: &Vec<usize>,
    visited: Vec<bool>,
    fuel: usize,
) -> (r: Option<usize>)
    requires
        body.wf(),
        (block as nat) < body.blocks@.len(),
        (j as nat) <= body.blocks@[block as int].stmts@.len(),
        visited@.len() == body.blocks@.len(),
    ensures
        r == guard_search(*body, cmp_calls@, block as int, j as int, locals@, visited@, fuel as nat),
        r matches Some(c) ==> (c as nat) < body.blocks@.len(),
    decreases fuel, body.blocks@[block as int].stmts@.len() - j,
{
    let n_stmts = body.blocks[block].stmts.len();
    if j < n_stmts {
        let stmt = &body.blocks[block].stmts[j];
        let hit = match &stmt.rv {
            Rvalue::BinaryOp { op, lhs, rhs } => {
                let is_cmp = match op {
                    BinOpKind::CmpEq => true,
                    BinOpKind::CmpNe => true,
                    BinOpKind::OtherOp => false,
                };
                is_cmp && (operand_hits(body, block, lhs, locals) || operand_hits(
                    body,
                    block,
                    rhs,
                    locals,
                ))
            },
            _ => false,
        };
        if hit {
            Some(block)
        } else {
            guard_go(body, cmp_calls, block, j + 1, locals, visited, fuel)
        }
    } else {
        let term_hit = match &body.blocks[block].term {
            Terminator::Call { func: Operand::ConstFn { id }, args, .. } => {
                crate::ir::id_in(cmp_calls, *id) && args.len() >= 2 && (operand_hits(
                    body,
                    block,
                    &args[0],
                    locals,
                ) || operand_hits(body, block, &args[1], locals))
            },
            _ => false,
        };
        if term_hit {
            Some(block)
        } else {
            match first_pred_of(body, block) {
                Option::None => None,
                Option::Some(p) => {
                    proof {
                        lemma_first_pred_edge(*body, block);
                    }
                    if fuel == 0 || visited[p] {
                        None
                    } else {
                        let mut visited2 = visited;
                        visited2[p] = true;
                        guard_go(body, cmp_calls, p, 0, locals, visited2, fuel - 1)
                    }
                },
            }
        }
    }
}

/// Executable form of [`spec_find_guard`].
pub fn find_guard(body: &Body, cmp_calls: &Vec<u64>, use_block: usize, locals: &Vec<usize>) -> (r:
    Option<usize>)
    requires
        body.wf(),
        (use_block as nat) < body.blocks@.len(),
    ensures
        r == spec_find_guard(*body, cmp_calls@, use_block, locals@),
        r matches Some(c) ==> (c as nat) < body.blocks@.len(),
{
    let n = body.blocks.len();
    let mut visited = falses(n);
    visited[use_block] = true;
    proof {
        assert(visited@ =~= start_visited(body.blocks@.len(), use_block));
    }
    guard_go(body, cmp_calls, use_block, 0, locals, visited, n)
}

/// Executable form of [`spec_is_guarded`]: whether some comparison on an
/// alias of the traced value dominates the use site.
pub fn is_guarded(
    body: &Body,
    topo: &Topology,
    cmp_calls: &Vec<u64>,
    use_block: usize,
    locals: &Vec<usize>,
) -> (r: bool)
    requires
        body.wf(),
        topo.wf_for(*body),
        (use_block as nat) < body.blocks@.len(),
    ensures
        r == spec_is_guarded(*body, cmp_calls@, use_block, locals@),
{
    match find_guard(body, cmp_calls, use_block, locals) {
        Option::None => false,
        Option::Some(c) => topo.dominates(body, c, use_block),
    }
}

/// The base locals of an alias chain, in order.
pub open spec fn spec_locals_of(s: Seq<PlaceModel>) -> Seq<usize> {
    s.map_values(|p: PlaceModel| p.local)
}

/// Executable form of [`spec_locals_of`].
pub fn alias_locals(aliases: &Vec<Place>) -> (r: Vec<usize>)
    ensures
        r@ == spec_locals_of(place_views(aliases@)),
{
    let mut r: Vec<usize> = Vec::new();
    let mut k: usize = 0;
    while k < aliases.len()
        invariant
            k <= aliases@.len(),
            r@.len() == k,
            forall|i: int| 0 <= i < k ==> r@[i] == aliases@[i]@.local,
        decreases aliases@.len() - k,
    {
        r.push(aliases[k].local);
        k = k + 1;
    }
    proof {
        assert(r@ =~= spec_locals_of(place_views(aliases@)));
    }
    r
}

} // verus!
