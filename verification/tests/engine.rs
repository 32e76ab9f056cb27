use solana_lints::ir::{
    AggregateKind, BasicBlock, BinOpKind, Body, Operand, Place, ProjElem, Rvalue, Statement,
    Terminator,
};
use solana_lints::ir::well_formed;
use solana_lints::topology::{first_pred_of, predecessors, Topology};
use solana_lints::trace::{trace, Classification, Matchers};
use solana_lints::guard::{alias_locals, find_guard, is_guarded, moved_from};

fn bare(l: usize) -> Place {
    Place { local: l, proj: vec![] }
}

fn copy_of(l: usize) -> Operand {
    Operand::CopyOf { place: bare(l) }
}

fn assign(dest: Place, rv: Rvalue) -> Statement {
    Statement { dest, rv }
}

fn copy_chain(dest: usize, src: usize) -> Statement {
    assign(bare(dest), Rvalue::UseOp { op: copy_of(src) })
}

fn block(stmts: Vec<Statement>, term: Terminator) -> BasicBlock {
    BasicBlock { stmts, term }
}

fn goto(target: usize) -> Terminator {
    Terminator::Goto { target }
}

fn branch(targets: Vec<usize>) -> Terminator {
    Terminator::Branch { targets }
}

fn body_of(blocks: Vec<BasicBlock>) -> Body {
    Body { blocks, entry: 0, local_types: vec![] }
}

fn plain_matchers(literal_types: Vec<u64>) -> Matchers {
    Matchers {
        literal_types,
        safe_calls: vec![],
        unsafe_calls: vec![],
        state_types: vec![],
        seed_shape: false,
    }
}

fn cmp_stmt(tmp: usize, on: usize) -> Statement {
    assign(
        bare(tmp),
        Rvalue::BinaryOp {
            op: BinOpKind::CmpEq,
            lhs: copy_of(on),
            rhs: Operand::ConstVal { value: 0 },
        },
    )
}

/// `Entry -> {Then, Else} -> Join -> Use`, with a comparison on local
/// `guard_on` placed in the block at `guard_in`.
fn diamond(guard_in: usize, guard_on: usize) -> Body {
    let mut blocks = vec![
        block(vec![], branch(vec![1, 2])),
        block(vec![], goto(3)),
        block(vec![], goto(3)),
        block(vec![], goto(4)),
        block(vec![], Terminator::Return),
    ];
    blocks[guard_in].stmts.push(cmp_stmt(90, guard_on));
    body_of(blocks)
}

#[test]
fn alias_chain_reaches_literal_in_order() {
    // Definition chain a := b; b := c; c := <literal of type 100>.
    let a = 1;
    let b = 2;
    let c = 3;
    let stmts = vec![
        assign(
            bare(c),
            Rvalue::Aggregate {
                kind: AggregateKind::Adt { ty: 100, variant_idx: 0 },
                fields: vec![],
            },
        ),
        copy_chain(b, c),
        copy_chain(a, b),
    ];
    let body = body_of(vec![block(stmts, Terminator::Return)]);
    let m = plain_matchers(vec![100]);
    let (class, aliases) = trace(&body, &m, 0, &bare(a));
    assert_eq!(class, Classification::LiteralMatched);
    assert_eq!(aliases, vec![bare(a), bare(b), bare(c)]);
}

#[test]
fn alias_chain_follows_ref_cast_and_deref() {
    let a = 1;
    let b = 2;
    let c = 3;
    let deref_c = Place { local: c, proj: vec![ProjElem::Deref] };
    let stmts = vec![
        assign(bare(b), Rvalue::CastOp { op: Operand::MoveOf { place: deref_c.clone() } }),
        assign(bare(a), Rvalue::RefOf { place: bare(b) }),
    ];
    let body = body_of(vec![block(stmts, Terminator::Return)]);
    let m = plain_matchers(vec![]);
    let (class, aliases) = trace(&body, &m, 0, &bare(a));
    assert_eq!(class, Classification::NotFound);
    assert_eq!(aliases, vec![bare(a), bare(b), deref_c]);
}

#[test]
fn unrelated_assignments_are_skipped() {
    let stmts = vec![copy_chain(7, 8), copy_chain(1, 2)];
    let body = body_of(vec![block(stmts, Terminator::Return)]);
    let m = plain_matchers(vec![]);
    let (class, aliases) = trace(&body, &m, 0, &bare(1));
    assert_eq!(class, Classification::NotFound);
    assert_eq!(aliases, vec![bare(1), bare(2)]);
}

#[test]
fn trace_walks_into_first_predecessor() {
    // Definition sits in the entry block; the use site is downstream.
    let entry = block(vec![copy_chain(1, 2)], goto(1));
    let use_site = block(vec![], Terminator::Return);
    let body = body_of(vec![entry, use_site]);
    let m = plain_matchers(vec![]);
    let (class, aliases) = trace(&body, &m, 1, &bare(1));
    assert_eq!(class, Classification::NotFound);
    assert_eq!(aliases, vec![bare(1), bare(2)]);
}

#[test]
fn trace_stops_on_visited_cycle() {
    // 0 -> 1 -> 0: the walk must not loop.
    let body = body_of(vec![block(vec![], goto(1)), block(vec![], goto(0))]);
    let m = plain_matchers(vec![]);
    let (class, aliases) = trace(&body, &m, 1, &bare(5));
    assert_eq!(class, Classification::NotFound);
    assert_eq!(aliases, vec![bare(5)]);
}

#[test]
fn diamond_guard_in_one_arm_is_not_guarding() {
    // The comparison sits in Then only: some path to Use misses it.
    let body = diamond(1, 10);
    let topo = Topology::new(&body);
    let guarded = is_guarded(&body, &topo, &vec![], 4, &vec![10]);
    assert!(!guarded);
}

#[test]
fn diamond_guard_in_entry_is_guarding() {
    // The comparison sits in Entry: every path to Use passes it.
    let body = diamond(0, 10);
    let topo = Topology::new(&body);
    let guarded = is_guarded(&body, &topo, &vec![], 4, &vec![10]);
    assert!(guarded);
}

#[test]
fn straight_line_predecessor_guard_is_guarding() {
    let blocks = vec![
        block(vec![], goto(1)),
        block(vec![cmp_stmt(90, 10)], goto(2)),
        block(vec![], Terminator::Return),
    ];
    let body = body_of(blocks);
    let topo = Topology::new(&body);
    assert!(is_guarded(&body, &topo, &vec![], 2, &vec![10]));
}

#[test]
fn only_first_predecessor_arm_is_explored() {
    // The only guard sits in Else, but Join's first predecessor in host
    // order is Then: the deterministic walk explores Then and never
    // sees the guard. This pins the documented one-predecessor
    // heuristic rather than hiding it.
    let body = diamond(2, 10);
    assert_eq!(first_pred_of(&body, 3), Some(1));
    let found = find_guard(&body, &vec![], 4, &vec![10]);
    assert_eq!(found, None);
    let topo = Topology::new(&body);
    assert!(!is_guarded(&body, &topo, &vec![], 4, &vec![10]));
}

#[test]
fn comparison_call_counts_as_guard() {
    // The comparison is a call to a configured equality callee.
    let eq_id = 77;
    let blocks = vec![
        block(
            vec![],
            Terminator::Call {
                func: Operand::ConstFn { id: eq_id },
                args: vec![copy_of(10), Operand::ConstVal { value: 1 }],
                dest: bare(90),
                target: Some(1),
            },
        ),
        block(vec![], Terminator::Return),
    ];
    let body = body_of(blocks);
    let topo = Topology::new(&body);
    assert_eq!(find_guard(&body, &vec![eq_id], 1, &vec![10]), Some(0));
    assert!(is_guarded(&body, &topo, &vec![eq_id], 1, &vec![10]));
    // Without the callee in the comparison table, nothing is found.
    assert_eq!(find_guard(&body, &vec![], 1, &vec![10]), None);
}

#[test]
fn no_comparison_fails_closed() {
    let body = body_of(vec![block(vec![], Terminator::Return)]);
    let topo = Topology::new(&body);
    assert!(!is_guarded(&body, &topo, &vec![], 0, &vec![10]));
}

#[test]
fn moved_from_follows_assignment_chain() {
    // 3 := 10; 2 := 3; comparing on 2 descends from 10.
    let stmts = vec![copy_chain(3, 10), copy_chain(2, 3)];
    let body = body_of(vec![block(stmts, Terminator::Return)]);
    assert!(moved_from(&body, 0, &bare(2), &vec![10]));
    assert!(!moved_from(&body, 0, &bare(2), &vec![11]));
    assert!(moved_from(&body, 0, &bare(10), &vec![10]));
}

#[test]
fn predecessor_lists_are_complete_and_ordered() {
    let body = diamond(0, 10);
    let preds = predecessors(&body);
    assert_eq!(preds[0], Vec::<usize>::new());
    assert_eq!(preds[1], vec![0]);
    assert_eq!(preds[2], vec![0]);
    assert_eq!(preds[3], vec![1, 2]);
    assert_eq!(preds[4], vec![3]);
}

#[test]
fn dominance_on_diamond() {
    let body = diamond(0, 10);
    let topo = Topology::new(&body);
    assert!(topo.dominates(&body, 0, 4));
    assert!(topo.dominates(&body, 3, 4));
    assert!(!topo.dominates(&body, 1, 4));
    assert!(!topo.dominates(&body, 2, 4));
    assert!(topo.dominates(&body, 4, 4));
}

#[test]
fn unreachable_blocks_dominate_nothing() {
    // Block 2 has no incoming edge: queries about it answer false.
    let blocks = vec![
        block(vec![], goto(1)),
        block(vec![], Terminator::Return),
        block(vec![], Terminator::Return),
    ];
    let body = body_of(blocks);
    let topo = Topology::new(&body);
    assert!(!topo.dominates(&body, 0, 2));
    assert!(!topo.dominates(&body, 2, 2));
    assert!(!topo.dominates(&body, 2, 1));
}

#[test]
fn input_contract_is_checked() {
    assert!(well_formed(&diamond(0, 10)));
    // An edge pointing outside the body breaks the contract.
    let stray = body_of(vec![block(vec![], goto(7))]);
    assert!(!well_formed(&stray));
    // So does an entry block that does not exist.
    let no_entry = Body { blocks: vec![], entry: 0, local_types: vec![] };
    assert!(!well_formed(&no_entry));
}

#[test]
fn alias_locals_projects_bases() {
    let aliases = vec![bare(4), Place { local: 9, proj: vec![ProjElem::Deref] }];
    assert_eq!(alias_locals(&aliases), vec![4, 9]);
}
