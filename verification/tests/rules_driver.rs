use solana_lints::driver::{
    aggregate_matches, aggregate_seed, analyze_site, scan_body, Action, AggregateSlot, Finding,
    Policy, Rule, Severity,
};
use solana_lints::ir::{
    AggregateKind, BasicBlock, BinOpKind, Body, Operand, Place, ProjElem, Rvalue, Statement,
    Terminator,
};
use solana_lints::topology::Topology;
use solana_lints::trace::{trace, Classification, Matchers};

fn bare(l: usize) -> Place {
    Place { local: l, proj: vec![] }
}

fn copy_of(l: usize) -> Operand {
    Operand::CopyOf { place: bare(l) }
}

fn move_of(l: usize) -> Operand {
    Operand::MoveOf { place: bare(l) }
}

fn assign(dest: Place, rv: Rvalue) -> Statement {
    Statement { dest, rv }
}

fn copy_chain(dest: usize, src: usize) -> Statement {
    assign(bare(dest), Rvalue::UseOp { op: copy_of(src) })
}

fn block(stmts: Vec<Statement>, term: Terminator) -> BasicBlock {
    BasicBlock { stmts, term }
}

fn body_of(blocks: Vec<BasicBlock>) -> Body {
    Body { blocks, entry: 0, local_types: vec![] }
}

const INSTRUCTION_TY: u64 = 200;
const INVOKE_ID: u64 = 300;
const SAFE_FACTORY_ID: u64 = 55;

fn guard_all(severity: Severity) -> Action {
    Action::RequireGuard { severity }
}

fn cpi_policy() -> Policy {
    Policy {
        on_literal: guard_all(Severity::High),
        on_safe_call: Action::Ignore,
        on_unsafe_call: Action::Report { severity: Severity::High },
        on_unknown_call: Action::Report { severity: Severity::Medium },
        on_state_field: Action::Report { severity: Severity::Medium },
        on_other_field: Action::Report { severity: Severity::Low },
        on_bare_seed: guard_all(Severity::High),
        on_not_found: guard_all(Severity::High),
    }
}

fn cpi_rule() -> Rule {
    Rule {
        matchers: Matchers {
            literal_types: vec![],
            safe_calls: vec![SAFE_FACTORY_ID],
            unsafe_calls: vec![],
            state_types: vec![],
            seed_shape: false,
        },
        sensitive_calls: vec![INVOKE_ID],
        sensitive_arg: 0,
        seed_slot: Some(AggregateSlot { ty: INSTRUCTION_TY, slot: 0 }),
        cmp_calls: vec![],
        policy: cpi_policy(),
    }
}

fn instruction_init(dest: usize, pid: usize) -> Statement {
    assign(
        bare(dest),
        Rvalue::Aggregate {
            kind: AggregateKind::Adt { ty: INSTRUCTION_TY, variant_idx: 0 },
            fields: vec![move_of(pid), move_of(21), move_of(22)],
        },
    )
}

fn pid_compare(tmp: usize, on: usize) -> Statement {
    assign(
        bare(tmp),
        Rvalue::BinaryOp {
            op: BinOpKind::CmpEq,
            lhs: copy_of(on),
            rhs: Operand::ConstVal { value: 9 },
        },
    )
}

#[test]
fn aggregate_slot_matcher_is_positional() {
    // The sensitive place sits at slot 0; a matcher for slot 0 finds
    // it, and the permuted literal no longer matches.
    let sens = bare(10);
    let other = bare(11);
    let straight = assign(
        bare(1),
        Rvalue::Aggregate {
            kind: AggregateKind::Adt { ty: 7, variant_idx: 0 },
            fields: vec![copy_of(10), copy_of(11)],
        },
    );
    let permuted = assign(
        bare(1),
        Rvalue::Aggregate {
            kind: AggregateKind::Adt { ty: 7, variant_idx: 0 },
            fields: vec![copy_of(11), copy_of(10)],
        },
    );
    assert!(aggregate_matches(&straight, 7, 0, &sens));
    assert!(!aggregate_matches(&permuted, 7, 0, &sens));
    assert_eq!(aggregate_seed(&straight, 7, 0), Some(&sens));
    assert_eq!(aggregate_seed(&permuted, 7, 0), Some(&other));
    // A different type or an out-of-range slot matches nothing.
    assert!(!aggregate_matches(&straight, 8, 0, &sens));
    assert_eq!(aggregate_seed(&straight, 7, 5), None);
}

#[test]
fn unchecked_instruction_literal_is_reported() {
    // pid := src; inst := Instruction { pid, .. }: nothing compares the
    // program id, so the site is unguarded and reported.
    let stmts = vec![copy_chain(10, 12), instruction_init(1, 10)];
    let body = body_of(vec![block(stmts, Terminator::Return)]);
    let topo = Topology::new(&body);
    let findings = scan_body(&body, &topo, &cpi_rule());
    assert_eq!(findings.len(), 1);
    assert_eq!(
        findings[0],
        Finding { block: 0, class: Classification::NotFound, severity: Severity::High },
    );
}

#[test]
fn compared_instruction_literal_is_not_reported() {
    // The same site with a dominating comparison on the program id's
    // alias chain stays silent.
    let stmts = vec![pid_compare(90, 12), copy_chain(10, 12), instruction_init(1, 10)];
    let body = body_of(vec![block(stmts, Terminator::Return)]);
    let topo = Topology::new(&body);
    let findings = scan_body(&body, &topo, &cpi_rule());
    assert_eq!(findings, vec![]);
}

#[test]
fn comparison_on_one_arm_only_still_reports() {
    // Entry -> {Then, Else} -> Join(use): the comparison in Then does
    // not dominate the use site.
    let blocks = vec![
        block(vec![copy_chain(10, 12)], Terminator::Branch { targets: vec![1, 2] }),
        block(vec![pid_compare(90, 12)], Terminator::Goto { target: 3 }),
        block(vec![], Terminator::Goto { target: 3 }),
        block(vec![instruction_init(1, 10)], Terminator::Return),
    ];
    let body = body_of(blocks);
    let topo = Topology::new(&body);
    let findings = scan_body(&body, &topo, &cpi_rule());
    assert_eq!(findings.len(), 1);
    assert_eq!(findings[0].block, 3);
}

#[test]
fn safe_factory_origin_short_circuits() {
    // The traced value's sole definition is a call to the safe factory:
    // the trace ends at once and the verifier is never consulted.
    let blocks = vec![
        block(
            vec![],
            Terminator::Call {
                func: Operand::ConstFn { id: SAFE_FACTORY_ID },
                args: vec![],
                dest: bare(9),
                target: Some(1),
            },
        ),
        block(
            vec![],
            Terminator::Call {
                func: Operand::ConstFn { id: INVOKE_ID },
                args: vec![move_of(9)],
                dest: bare(30),
                target: None,
            },
        ),
    ];
    let body = body_of(blocks);
    let topo = Topology::new(&body);
    let rule = cpi_rule();
    let report = analyze_site(&body, &topo, &rule, 1, &bare(9));
    assert_eq!(report.class, Classification::SafeCall);
    assert_eq!(report.aliases, vec![bare(9)]);
    assert_eq!(report.guarded, None);
    assert_eq!(scan_body(&body, &topo, &rule), vec![]);
}

#[test]
fn unknown_call_origin_is_reported() {
    // The defining callee resolves to no table: fail closed, report.
    let blocks = vec![
        block(
            vec![],
            Terminator::Call {
                func: Operand::ConstFn { id: 444 },
                args: vec![],
                dest: bare(9),
                target: Some(1),
            },
        ),
        block(
            vec![],
            Terminator::Call {
                func: Operand::ConstFn { id: INVOKE_ID },
                args: vec![move_of(9)],
                dest: bare(30),
                target: None,
            },
        ),
    ];
    let body = body_of(blocks);
    let topo = Topology::new(&body);
    let findings = scan_body(&body, &topo, &cpi_rule());
    assert_eq!(findings.len(), 1);
    assert_eq!(
        findings[0],
        Finding { block: 1, class: Classification::UnknownCall, severity: Severity::Medium },
    );
}

#[test]
fn unsafe_call_origin_is_reported_outright() {
    let blocks = vec![
        block(
            vec![],
            Terminator::Call {
                func: Operand::ConstFn { id: 600 },
                args: vec![],
                dest: bare(9),
                target: Some(1),
            },
        ),
        block(
            vec![],
            Terminator::Call {
                func: Operand::ConstFn { id: INVOKE_ID },
                args: vec![move_of(9)],
                dest: bare(30),
                target: None,
            },
        ),
    ];
    let body = body_of(blocks);
    let topo = Topology::new(&body);
    let mut rule = cpi_rule();
    rule.matchers.unsafe_calls = vec![600];
    let findings = scan_body(&body, &topo, &rule);
    assert_eq!(findings.len(), 1);
    assert_eq!(findings[0].class, Classification::UnsafeCall);
}

#[test]
fn literal_of_another_type_is_passed_over() {
    // The tracked place is defined by an aggregate of an unconfigured
    // type: the walk reads past it and ends unresolved.
    let stmts = vec![
        assign(
            bare(1),
            Rvalue::Aggregate {
                kind: AggregateKind::Adt { ty: 999, variant_idx: 0 },
                fields: vec![],
            },
        ),
    ];
    let body = body_of(vec![block(stmts, Terminator::Return)]);
    let m = Matchers {
        literal_types: vec![100],
        safe_calls: vec![],
        unsafe_calls: vec![],
        state_types: vec![],
        seed_shape: false,
    };
    let (class, aliases) = trace(&body, &m, 0, &bare(1));
    assert_eq!(class, Classification::NotFound);
    assert_eq!(aliases, vec![bare(1)]);
}

#[test]
fn exhausted_seed_fails_closed() {
    // No entry-reachable definition for the traced argument: the trace
    // ends in the not-found state, and a fail-closed policy reports it
    // rather than passing silently.
    let body = body_of(vec![
        block(
            vec![],
            Terminator::Call {
                func: Operand::ConstFn { id: INVOKE_ID },
                args: vec![move_of(5)],
                dest: bare(6),
                target: None,
            },
        ),
    ]);
    let topo = Topology::new(&body);
    let mut rule = cpi_rule();
    rule.policy.on_not_found = Action::Report { severity: Severity::High };
    let findings = scan_body(&body, &topo, &rule);
    assert_eq!(findings.len(), 1);
    assert_eq!(
        findings[0],
        Finding { block: 0, class: Classification::NotFound, severity: Severity::High },
    );
}

#[test]
fn pipeline_is_idempotent() {
    let stmts = vec![copy_chain(10, 12), instruction_init(1, 10)];
    let blocks = vec![
        block(stmts, Terminator::Branch { targets: vec![1, 2] }),
        block(vec![], Terminator::Goto { target: 2 }),
        block(
            vec![],
            Terminator::Call {
                func: Operand::ConstFn { id: INVOKE_ID },
                args: vec![move_of(5)],
                dest: bare(6),
                target: None,
            },
        ),
    ];
    let body = body_of(blocks);
    let rule = cpi_rule();
    let topo1 = Topology::new(&body);
    let first = scan_body(&body, &topo1, &rule);
    let topo2 = Topology::new(&body);
    let second = scan_body(&body, &topo2, &rule);
    assert_eq!(first, second);
    let m = &rule.matchers;
    assert_eq!(trace(&body, m, 2, &bare(5)), trace(&body, m, 2, &bare(5)));
}

fn seed_rule(state_types: Vec<u64>) -> Rule {
    Rule {
        matchers: Matchers {
            literal_types: vec![],
            safe_calls: vec![],
            unsafe_calls: vec![],
            state_types,
            seed_shape: true,
        },
        sensitive_calls: vec![INVOKE_ID],
        sensitive_arg: 0,
        seed_slot: None,
        cmp_calls: vec![],
        policy: cpi_policy(),
    }
}

fn seeds_array_stmts(bump_src: Option<Place>) -> Vec<Statement> {
    // [seed1, &[bump]] built inside out; the bump value may itself be
    // read out of a struct field.
    let mut stmts = vec![];
    if let Some(src) = bump_src {
        stmts.push(assign(bare(4), Rvalue::UseOp { op: Operand::CopyOf { place: src } }));
    }
    stmts.push(assign(
        bare(3),
        Rvalue::Aggregate { kind: AggregateKind::ArrayLit, fields: vec![move_of(4)] },
    ));
    stmts.push(assign(
        bare(2),
        Rvalue::Aggregate {
            kind: AggregateKind::ArrayLit,
            fields: vec![move_of(7), move_of(3)],
        },
    ));
    stmts
}

fn seeds_call_body(bump_src: Option<Place>, local_types: Vec<u64>) -> Body {
    let blocks = vec![
        block(
            seeds_array_stmts(bump_src),
            Terminator::Call {
                func: Operand::ConstFn { id: INVOKE_ID },
                args: vec![move_of(2)],
                dest: bare(30),
                target: None,
            },
        ),
    ];
    Body { blocks, entry: 0, local_types }
}

#[test]
fn seed_array_bare_bump_is_found() {
    // &[seed1, &[bump]] with bump a bare local: the two-stage matcher
    // descends to it and classifies it as a bare seed value.
    let body = seeds_call_body(None, vec![]);
    let rule = seed_rule(vec![]);
    let (class, aliases) = trace(&body, &rule.matchers, 0, &bare(2));
    assert_eq!(class, Classification::BareSeed);
    assert_eq!(aliases, vec![bare(2), bare(4)]);
}

#[test]
fn seed_array_bump_from_state_struct() {
    // The bump is read out of a struct whose type is in the on-chain
    // state table: the most specific outcome.
    let field_read = Place { local: 8, proj: vec![ProjElem::Field { idx: 1 }] };
    let mut local_types = vec![0u64; 9];
    local_types[8] = 500;
    let body = seeds_call_body(Some(field_read.clone()), local_types);
    let rule = seed_rule(vec![500]);
    let (class, aliases) = trace(&body, &rule.matchers, 0, &bare(2));
    assert_eq!(class, Classification::StateField);
    assert_eq!(aliases, vec![bare(2), bare(4), field_read]);
}

#[test]
fn seed_array_bump_from_other_struct() {
    // Same shape, but the struct's type is not registered as state.
    let field_read = Place { local: 8, proj: vec![ProjElem::Field { idx: 1 }] };
    let body = seeds_call_body(Some(field_read), vec![0; 9]);
    let rule = seed_rule(vec![500]);
    let (class, _) = trace(&body, &rule.matchers, 0, &bare(2));
    assert_eq!(class, Classification::OtherField);
}

#[test]
fn guarded_bare_bump_is_not_reported() {
    // A dominating comparison on the bump constrains it.
    let mut stmts = seeds_array_stmts(None);
    stmts.insert(
        0,
        assign(
            bare(90),
            Rvalue::BinaryOp {
                op: BinOpKind::CmpEq,
                lhs: copy_of(4),
                rhs: Operand::ConstVal { value: 255 },
            },
        ),
    );
    let blocks = vec![
        block(
            stmts,
            Terminator::Call {
                func: Operand::ConstFn { id: INVOKE_ID },
                args: vec![move_of(2)],
                dest: bare(30),
                target: None,
            },
        ),
    ];
    let body = body_of(blocks);
    let topo = Topology::new(&body);
    let rule = seed_rule(vec![]);
    assert_eq!(scan_body(&body, &topo, &rule), vec![]);
    // Without the comparison, the bare bump is reported.
    let unguarded = seeds_call_body(None, vec![]);
    let topo2 = Topology::new(&unguarded);
    let findings = scan_body(&unguarded, &topo2, &rule);
    assert_eq!(findings.len(), 1);
    assert_eq!(findings[0].class, Classification::BareSeed);
}
