//! The backward alias tracer and its structural pattern matchers.
//!
//! Tracing starts from a seed place at a use site and walks the body
//! against control flow: each block's assignments are read in reverse
//! program order, and when a block is exhausted the walk moves to the
//! block's first predecessor in host order. Following one predecessor is
//! a deliberate, documented heuristic of this engine: a definition that
//! only exists on another incoming path is missed, and callers accept
//! that in exchange for a simple, terminating walk.
//!
//! The walk carries a small state machine. In plain mode it only follows
//! copy/move/reference/cast chains and stops when the tracked place is
//! defined by an aggregate literal of a configured type, or by a call,
//! or when predecessors run out. In seed-array mode it first descends
//! through the outer seeds array and the inner one-element array before
//! following the seed value itself, distinguishing a bare value from a
//! struct-field read and, through the host's type oracle, a read out of
//! a configured on-chain state type.
//!
//! Every outcome of [`trace`] is pinned to the spec-level walk
//! [`spec_trace`], a function of the body, the matchers and the seed
//! alone, so two runs over one immutable body cannot differ.

use vstd::prelude::*;

use crate::ir::{
    base_of, copy_place, has_field_proj, id_in, local_type, op_place, operand_place,
    place_has_field_proj, place_views, same_base, spec_local_type, AggregateKind, Body,
};
use crate::ir::{lemma_place_views_push, Operand, Place, PlaceModel, Rvalue, Statement, Terminator};
use crate::topology::{falses, first_pred, first_pred_of, lemma_first_pred_edge};

verus! {

/// The matcher configuration a rule hands to the tracer.
pub struct Matchers {
    /// Aggregate types whose literal construction ends a plain trace.
    pub literal_types: Vec<u64>,
    /// Callees whose result is known safe: tracing stops, nothing to check.
    pub safe_calls: Vec<u64>,
    /// Callees whose unchecked result is known dangerous.
    pub unsafe_calls: Vec<u64>,
    /// Types that hold on-chain state, for the seed-array matcher.
    pub state_types: Vec<u64>,
    /// Whether the trace starts in seed-array mode.
    pub seed_shape: bool,
}

/// The tracer's working state while the walk is still searching.
#[derive(Clone, Copy, Debug, PartialEq, Eq, Structural)]
pub enum TraceState {
    /// Plain mode: following the alias chain of the tracked place.
    Searching,
    /// Seed mode: still looking for the outer seeds-array literal.
    SeedsArray,
    /// Seed mode: inside the outer array, looking for the one-element
    /// array that holds the seed value.
    InnerArray,
    /// Seed mode: tracking the seed value itself.
    SeedValue,
}

/// How a finished trace classifies the origin of the traced value.
#[derive(Clone, Copy, Debug, PartialEq, Eq, Structural)]
pub enum Classification {
    /// The value came from an aggregate literal of a configured type.
    LiteralMatched,
    /// The value is the result of a call in the safe table.
    SafeCall,
    /// The value is the result of a call in the unsafe table.
    UnsafeCall,
    /// The value is the result of a call no table resolves.
    UnknownCall,
    /// The seed value was read out of a configured on-chain state type.
    StateField,
    /// The seed value was read out of some other struct.
    OtherField,
    /// The seed value is a bare local, defined no further.
    BareSeed,
    /// Predecessors ran out before any definition was found.
    NotFound,
}

/// The state the trace begins in under matchers `m`.
pub open spec fn initial_state(m: Matchers) -> TraceState {
    if m.seed_shape {
        TraceState::SeedsArray
    } else {
        TraceState::Searching
    }
}

/// The classification of a walk that exhausted its predecessors.
pub open spec fn exhaust_state(st: TraceState) -> Classification {
    match st {
        TraceState::SeedValue => Classification::BareSeed,
        _ => Classification::NotFound,
    }
}

/// Executable form of [`exhaust_state`].
pub fn exhausted(st: TraceState) -> (c: Classification)
    ensures
        c == exhaust_state(st),
{
    match st {
        TraceState::SeedValue => Classification::BareSeed,
        _ => Classification::NotFound,
    }
}

/// The callee-classification matcher: a static callee is looked up in
/// the safe and unsafe tables; a dynamic callee resolves to no table.
pub open spec fn classify_callee(m: Matchers, func: Operand) -> Classification {
    match func {
        Operand::ConstFn { id } => {
            if m.safe_calls@.contains(id) {
                Classification::SafeCall
            } else if m.unsafe_calls@.contains(id) {
                Classification::UnsafeCall
            } else {
                Classification::UnknownCall
            }
        },
        _ => Classification::UnknownCall,
    }
}

/// Executable form of [`classify_callee`].
pub fn callee_class(m: &Matchers, func: &Operand) -> (c: Classification)
    ensures
        c == classify_callee(*m, *func),
{
    match func {
        Operand::ConstFn { id } => {
            if id_in(&m.safe_calls, *id) {
                Classification::SafeCall
            } else if id_in(&m.unsafe_calls, *id) {
                Classification::UnsafeCall
            } else {
                Classification::UnknownCall
            }
        },
        _ => Classification::UnknownCall,
    }
}

/// What one matching assignment does to the walk.
pub ghost enum StepOutcome {
    /// The walk ends with this classification and alias set.
    Done { class: Classification, aliases: Seq<PlaceModel> },
    /// The walk continues with this state, tracked place and alias set.
    Proceed { st: TraceState, place: PlaceModel, aliases: Seq<PlaceModel> },
}

/// The alias step: the tracked place was assigned from place `q` (a
/// copy, move, reference or cast).
pub open spec fn step_alias(
    body: Body,
    m: Matchers,
    st: TraceState,
    place: PlaceModel,
    aliases: Seq<PlaceModel>,
    q_opt: Option<Place>,
) -> StepOutcome {
    match q_opt {
        None => StepOutcome::Proceed { st, place, aliases },
        Some(qp) => {
            let q = qp@;
            match st {
                TraceState::Searching => StepOutcome::Proceed {
                    st,
                    place: q,
                    aliases: aliases.push(q),
                },
                TraceState::SeedsArray => StepOutcome::Proceed { st, place: q, aliases },
                TraceState::InnerArray => StepOutcome::Proceed { st, place: q, aliases },
                TraceState::SeedValue => {
                    if has_field_proj(q) {
                        if m.state_types@.contains(spec_local_type(body, q.local)) {
                            StepOutcome::Done {
                                class: Classification::StateField,
                                aliases: aliases.push(q),
                            }
                        } else {
                            StepOutcome::Done {
                                class: Classification::OtherField,
                                aliases: aliases.push(q),
                            }
                        }
                    } else {
                        StepOutcome::Proceed { st, place: q, aliases: aliases.push(q) }
                    }
                },
            }
        },
    }
}

/// The aggregate step: the tracked place was assigned a struct, enum or
/// array literal.
pub open spec fn step_aggregate(
    st: TraceState,
    place: PlaceModel,
    aliases: Seq<PlaceModel>,
    kind: AggregateKind,
    fields: Seq<Operand>,
    literal_types: Seq<u64>,
) -> StepOutcome {
    match kind {
        AggregateKind::Adt { ty, .. } => {
            if st is Searching && literal_types.contains(ty) {
                StepOutcome::Done { class: Classification::LiteralMatched, aliases }
            } else {
                StepOutcome::Proceed { st, place, aliases }
            }
        },
        AggregateKind::ArrayLit => {
            if st is SeedsArray && fields.len() > 1 {
                match fields.last() {
                    Operand::MoveOf { place: qp } => StepOutcome::Proceed {
                        st: TraceState::InnerArray,
                        place: qp@,
                        aliases,
                    },
                    _ => StepOutcome::Proceed { st, place, aliases },
                }
            } else if st is InnerArray && fields.len() == 1 {
                match fields[0] {
                    Operand::MoveOf { place: qp } => StepOutcome::Proceed {
                        st: TraceState::SeedValue,
                        place: qp@,
                        aliases: aliases.push(qp@),
                    },
                    _ => StepOutcome::Proceed { st, place, aliases },
                }
            } else {
                StepOutcome::Proceed { st, place, aliases }
            }
        },
    }
}

/// What one assignment whose destination matches the tracked place does.
pub open spec fn step_stmt(
    body: Body,
    m: Matchers,
    st: TraceState,
    place: PlaceModel,
    aliases: Seq<PlaceModel>,
    stmt: Statement,
) -> StepOutcome {
    match stmt.rv {
        Rvalue::UseOp { op } => step_alias(body, m, st, place, aliases, op_place(op)),
        Rvalue::CastOp { op } => step_alias(body, m, st, place, aliases, op_place(op)),
        Rvalue::RefOf { place: q } => step_alias(body, m, st, place, aliases, Some(q)),
        Rvalue::Aggregate { kind, fields } => step_aggregate(
            st,
            place,
            aliases,
            kind,
            fields@,
            m.literal_types@,
        ),
        Rvalue::BinaryOp { .. } => StepOutcome::Proceed { st, place, aliases },
    }
}

/// The whole backward walk, one instruction at a time.
///
/// With `check_term` set the walk first examines the terminator of
/// `block` — done only when the walk entered the block from one of its
/// successors, since a block's terminator runs after its assignments.
/// Otherwise `i` counts down through the assignments: `stmts.len()` down
/// to `1` examine `stmts[i - 1]`, and `0` moves to the first
/// predecessor. The visited set and the fuel are the defensive guards
/// that bound the walk on degenerate graphs.
pub open spec fn trace_from(
    body: Body,
    m: Matchers,
    block: int,
    check_term: bool,
    i: int,
    st: TraceState,
    place: PlaceModel,
    aliases: Seq<PlaceModel>,
    visited: Seq<bool>,
    fuel: nat,
) -> (Classification, Seq<PlaceModel>)
    decreases fuel, i, if check_term {
        1int
    } else {
        0int
    },
{
    let stmts = body.blocks@[block].stmts@;
    if check_term {
        match body.blocks@[block].term {
            Terminator::Call { func, dest, .. } => {
                if base_of(dest@) == base_of(place) {
                    (classify_callee(m, func), aliases)
                } else {
                    trace_from(body, m, block, false, i, st, place, aliases, visited, fuel)
                }
            },
            _ => trace_from(body, m, block, false, i, st, place, aliases, visited, fuel),
        }
    } else if i > 0 {
        let stmt = stmts[i - 1];
        if base_of(stmt.dest@) == base_of(place) {
            match step_stmt(body, m, st, place, aliases, stmt) {
                StepOutcome::Done { class, aliases: done_aliases } => (class, done_aliases),
                StepOutcome::Proceed { st: st2, place: p2, aliases: al2 } => trace_from(
                    body,
                    m,
                    block,
                    false,
                    i - 1,
                    st2,
                    p2,
                    al2,
                    visited,
                    fuel,
                ),
            }
        } else {
            trace_from(body, m, block, false, i - 1, st, place, aliases, visited, fuel)
        }
    } else {
        match first_pred(body, block as usize) {
            None => (exhaust_state(st), aliases),
            Some(p) => {
                if fuel == 0 || visited[p as int] {
                    (exhaust_state(st), aliases)
                } else {
                    trace_from(
                        body,
                        m,
                        p as int,
                        true,
                        body.blocks@[p as int].stmts@.len() as int,
                        st,
                        place,
                        aliases,
                        visited.update(p as int, true),
                        (fuel - 1) as nat,
                    )
                }
            },
        }
    }
}

/// The backward alias trace of `seed` from `start`: its origin
/// classification and the chain of aliases met on the way, seed first.
pub open spec fn start_visited(n: nat, start: usize) -> Seq<bool> {
    Seq::new(n, |k: int| k == start as int)
}

pub open spec fn spec_trace(body: Body, m: Matchers, start: usize, seed: PlaceModel) -> (
    Classification,
    Seq<PlaceModel>,
) {
    let n = body.blocks@.len();
    trace_from(
        body,
        m,
        start as int,
        false,
        body.blocks@[start as int].stmts@.len() as int,
        initial_state(m),
        seed,
        seq![seed],
        start_visited(n, start),
        n,
    )
}

/// The alias chain only grows along the walk: whatever the walk has
/// already collected stays, in order, at the front of the final chain.
/// In particular the seed is always the first entry, and each later
/// entry was appended when an assignment handed the tracked place on.
pub proof fn lemma_trace_extends(
    body: Body,
    m: Matchers,
    block: int,
    check_term: bool,
    i: int,
    st: TraceState,
    place: PlaceModel,
    aliases: Seq<PlaceModel>,
    visited: Seq<bool>,
    fuel: nat,
)
    ensures
        ({
            let r = trace_from(body, m, block, check_term, i, st, place, aliases, visited, fuel);
            r.1.len() >= aliases.len() && (forall|k: int|
                0 <= k < aliases.len() ==> r.1[k] == aliases[k])
        }),
    decreases fuel, i, if check_term {
        1int
    } else {
        0int
    },
{
    let stmts = body.blocks@[block].stmts@;
    if check_term {
        match body.blocks@[block].term {
            Terminator::Call { func, dest, .. } => {
                if base_of(dest@) == base_of(place) {
                } else {
                    lemma_trace_extends(
                        body,
                        m,
                        block,
                        false,
                        i,
                        st,
                        place,
                        aliases,
                        visited,
                        fuel,
                    );
                }
            },
            _ => {
                lemma_trace_extends(body, m, block, false, i, st, place, aliases, visited, fuel);
            },
        }
    } else if i > 0 {
        let stmt = stmts[i - 1];
        if base_of(stmt.dest@) == base_of(place) {
            match step_stmt(body, m, st, place, aliases, stmt) {
                StepOutcome::Done { class, aliases: done_aliases } => {
                    assert(done_aliases.len() >= aliases.len() && (forall|k: int|
                        0 <= k < aliases.len() ==> done_aliases[k] == aliases[k]));
                },
                StepOutcome::Proceed { st: st2, place: p2, aliases: al2 } => {
                    assert(al2.len() >= aliases.len() && (forall|k: int|
                        0 <= k < aliases.len() ==> al2[k] == aliases[k]));
                    lemma_trace_extends(body, m, block, false, i - 1, st2, p2, al2, visited, fuel);
                },
            }
        } else {
            lemma_trace_extends(body, m, block, false, i - 1, st, place, aliases, visited, fuel);
        }
    } else {
        match first_pred(body, block as usize) {
            None => {
            },
            Some(p) => {
                if fuel == 0 || visited[p as int] {
                } else {
                    lemma_trace_extends(
                        body,
                        m,
                        p as int,
                        true,
                        body.blocks@[p as int].stmts@.len() as int,
                        st,
                        place,
                        aliases,
                        visited.update(p as int, true),
                        (fuel - 1) as nat,
                    );
                }
            },
        }
    }
}

fn trace_go<'a>(
    body: &'a Body,
    m: &Matchers,
    block: usize,
    check_term: bool,
    i: usize,
    st: TraceState,
    place: &'a Place,
    aliases: Vec<Place>,
    visited: Vec<bool>,
    fuel: usize,
) -> (r: (Classification, Vec<Place>))
    requires
        body.wf(),
        (block as nat) < body.blocks@.len(),
        (i as nat) <= body.blocks@[block as int].stmts@.len(),
        visited@.len() == body.blocks@.len(),
    ensures
        ({
            let s = trace_from(
                *body,
                *m,
                block as int,
                check_term,
                i as int,
                st,
                place@,
                place_views(aliases@),
                visited@,
                fuel as nat,
            );
            r.0 == s.0 && place_views(r.1@) == s.1
        }),
    decreases fuel, i, if check_term {
        1int
    } else {
        0int
    },
{
    if check_term {
        match &body.blocks[block].term {
            Terminator::Call { func, dest, .. } => {
                if same_base(dest, place) {
                    (callee_class(m, func), aliases)
                } else {
                    trace_go(body, m, block, false, i, st, place, aliases, visited, fuel)
                }
            },
            _ => trace_go(body, m, block, false, i, st, place, aliases, visited, fuel),
        }
    } else if i > 0 {
        let stmt = &body.blocks[block].stmts[i - 1];
        if same_base(&stmt.dest, place) {
            match &stmt.rv {
                Rvalue::Aggregate { kind, fields } => {
                    match kind {
                        AggregateKind::Adt { ty, .. } => {
                            if matches!(st, TraceState::Searching) && id_in(&m.literal_types, *ty) {
                                (Classification::LiteralMatched, aliases)
                            } else {
                                trace_go(
                                    body,
                                    m,
                                    block,
                                    false,
                                    i - 1,
                                    st,
                                    place,
                                    aliases,
                                    visited,
                                    fuel,
                                )
                            }
                        },
                        AggregateKind::ArrayLit => {
                            if matches!(st, TraceState::SeedsArray) && fields.len() > 1 {
                                match &fields[fields.len() - 1] {
                                    Operand::MoveOf { place: q } => {
                                        trace_go(
                                            body,
                                            m,
                                            block,
                                            false,
                                            i - 1,
                                            TraceState::InnerArray,
                                            q,
                                            aliases,
                                            visited,
                                            fuel,
                                        )
                                    },
                                    _ => {
                                        trace_go(
                                            body,
                                            m,
                                            block,
                                            false,
                                            i - 1,
                                            st,
                                            place,
                                            aliases,
                                            visited,
                                            fuel,
                                        )
                                    },
                                }
                            } else if matches!(st, TraceState::InnerArray) && fields.len() == 1 {
                                match &fields[0] {
                                    Operand::MoveOf { place: q } => {
                                        let mut al = aliases;
                                        let qc = copy_place(q);
                                        proof {
                                            lemma_place_views_push(al@, qc);
                                        }
                                        al.push(qc);
                                        trace_go(
                                            body,
                                            m,
                                            block,
                                            false,
                                            i - 1,
                                            TraceState::SeedValue,
                                            q,
                                            al,
                                            visited,
                                            fuel,
                                        )
                                    },
                                    _ => {
                                        trace_go(
                                            body,
                                            m,
                                            block,
                                            false,
                                            i - 1,
                                            st,
                                            place,
                                            aliases,
                                            visited,
                                            fuel,
                                        )
                                    },
                                }
                            } else {
                                trace_go(
                                    body,
                                    m,
                                    block,
                                    false,
                                    i - 1,
                                    st,
                                    place,
                                    aliases,
                                    visited,
                                    fuel,
                                )
                            }
                        },
                    }
                },
                Rvalue::BinaryOp { .. } => {
                    trace_go(body, m, block, false, i - 1, st, place, aliases, visited, fuel)
                },
                _ => {
                    let q_opt: Option<&'a Place> = match &stmt.rv {
                        Rvalue::UseOp { op } => operand_place(op),
                        Rvalue::CastOp { op } => operand_place(op),
                        Rvalue::RefOf { place: q } => Some(q),
                        _ => None,
                    };
                    match q_opt {
                        Option::None => {
                            trace_go(
                                body,
                                m,
                                block,
                                false,
                                i - 1,
                                st,
                                place,
                                aliases,
                                visited,
                                fuel,
                            )
                        },
                        Option::Some(q) => {
                            match st {
                                TraceState::Searching => {
                                    let mut al = aliases;
                                    let qc = copy_place(q);
                                    proof {
                                        lemma_place_views_push(al@, qc);
                                    }
                                    al.push(qc);
                                    trace_go(
                                        body,
                                        m,
                                        block,
                                        false,
                                        i - 1,
                                        st,
                                        q,
                                        al,
                                        visited,
                                        fuel,
                                    )
                                },
                                TraceState::SeedsArray | TraceState::InnerArray => {
                                    trace_go(
                                        body,
                                        m,
                                        block,
                                        false,
                                        i - 1,
                                        st,
                                        q,
                                        aliases,
                                        visited,
                                        fuel,
                                    )
                                },
                                TraceState::SeedValue => {
                                    let mut al = aliases;
                                    let qc = copy_place(q);
                                    proof {
                                        lemma_place_views_push(al@, qc);
                                    }
                                    al.push(qc);
                                    if place_has_field_proj(q) {
                                        if id_in(&m.state_types, local_type(body, q.local)) {
                                            (Classification::StateField, al)
                                        } else {
                                            (Classification::OtherField, al)
                                        }
                                    } else {
                                        trace_go(
                                            body,
                                            m,
                                            block,
                                            false,
                                            i - 1,
                                            st,
                                            q,
                                            al,
                                            visited,
                                            fuel,
                                        )
                                    }
                                },
                            }
                        },
                    }
                },
            }
        } else {
            trace_go(body, m, block, false, i - 1, st, place, aliases, visited, fuel)
        }
    } else {
        match first_pred_of(body, block) {
            Option::None => (exhausted(st), aliases),
            Option::Some(p) => {
                proof {
                    lemma_first_pred_edge(*body, block);
                }
                if fuel == 0 || visited[p] {
                    (exhausted(st), aliases)
                } else {
                    let mut visited2 = visited;
                    visited2[p] = true;
                    let np = body.blocks[p].stmts.len();
                    trace_go(body, m, p, true, np, st, place, aliases, visited2, fuel - 1)
                }
            },
        }
    }
}

/// The backward alias tracer: from the use site `start`, follow the
/// definition chain of `seed` and classify its origin. Returns the
/// classification and the chain of aliasing places met on the way, seed
/// first. The result is a pure function of the body, the matchers and
/// the seed: see [`spec_trace`].
pub fn trace<'a>(body: &'a Body, m: &Matchers, start: usize, seed: &'a Place) -> (r: (
    Classification,
    Vec<Place>,
))
    requires
        body.wf(),
        (start as nat) < body.blocks@.len(),
    ensures
        ({
            let s = spec_trace(*body, *m, start, seed@);
            r.0 == s.0 && place_views(r.1@) == s.1
        }),
        r.1@.len() >= 1,
        place_views(r.1@)[0] == seed@,
{
    let n = body.blocks.len();
    let mut visited = falses(n);
    visited[start] = true;
    let mut aliases: Vec<Place> = Vec::new();
    let sc = copy_place(seed);
    aliases.push(sc);
    let st = if m.seed_shape {
        TraceState::SeedsArray
    } else {
        TraceState::Searching
    };
    let i0 = body.blocks[start].stmts.len();
    let ghost alv = place_views(aliases@);
    let ghost visv = visited@;
    let r = trace_go(body, m, start, false, i0, st, seed, aliases, visited, n);
    proof {
        assert(alv =~= seq![seed@]);
        assert(visv =~= start_visited(body.blocks@.len(), start));
        assert(st == initial_state(*m));
        assert(trace_from(
            *body,
            *m,
            start as int,
            false,
            i0 as int,
            st,
            seed@,
            alv,
            visv,
            n as nat,
        ) == spec_trace(*body, *m, start, seed@));
        lemma_trace_extends(*body, *m, start as int, false, i0 as int, st, seed@, alv, visv, n as nat);
        assert(alv[0] == seed@);
    }
    r
}

} // verus!
