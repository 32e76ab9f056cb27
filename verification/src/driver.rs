//! The rule-driver surface: seed extraction, verdict policies, and the
//! per-body scan.
//!
//! A concrete rule supplies a [`Rule`]: the callee table naming its
//! sensitive calls and which argument needs a guard, an optional
//! aggregate type and slot for rules seeded at a struct literal, the
//! matcher configuration for the tracer, the callees recognized as
//! comparisons, and a [`Policy`] mapping each origin classification to a
//! verdict. The driver holds no dataflow logic of its own: it walks the
//! body, hands each use site to the tracer and, where the policy asks
//! for a guard, to the verifier, and folds the verdicts into findings.

use vstd::prelude::*;

use crate::guard::{alias_locals, is_guarded, spec_is_guarded, spec_locals_of};
use crate::ir::{
    op_place, operand_place, place_views, Body, Operand, Place, PlaceModel, Rvalue, Statement,
    Terminator,
};
use crate::ir::AggregateKind;
use crate::topology::Topology;
use crate::trace::{spec_trace, trace, Classification, Matchers};

verus! {

/// How strongly a finding is worded.
#[derive(Clone, Copy, Debug, PartialEq, Eq, Structural)]
pub enum Severity {
    Low,
    Medium,
    High,
}

/// What a rule does with one origin classification.
#[derive(Clone, Copy, Debug, PartialEq, Eq, Structural)]
pub enum Action {
    /// No finding; the verifier is not consulted.
    Ignore,
    /// A finding, without consulting the verifier.
    Report { severity: Severity },
    /// Consult the verifier; a finding only when the site is unguarded.
    RequireGuard { severity: Severity },
}

/// The verdict policy of a rule: one action per classification. A
/// fail-closed rule maps `NotFound` and `UnknownCall` to `Report`, so
/// that an exhausted or unresolved search is surfaced rather than
/// silently passed.
#[derive(Clone, Copy, Debug, PartialEq, Eq, Structural)]
pub struct Policy {
    pub on_literal: Action,
    pub on_safe_call: Action,
    pub on_unsafe_call: Action,
    pub on_unknown_call: Action,
    pub on_state_field: Action,
    pub on_other_field: Action,
    pub on_bare_seed: Action,
    pub on_not_found: Action,
}

/// The action a policy takes for a classification.
pub open spec fn spec_action(p: Policy, c: Classification) -> Action {
    match c {
        Classification::LiteralMatched => p.on_literal,
        Classification::SafeCall => p.on_safe_call,
        Classification::UnsafeCall => p.on_unsafe_call,
        Classification::UnknownCall => p.on_unknown_call,
        Classification::StateField => p.on_state_field,
        Classification::OtherField => p.on_other_field,
        Classification::BareSeed => p.on_bare_seed,
        Classification::NotFound => p.on_not_found,
    }
}

/// Executable form of [`spec_action`].
pub fn action_for(p: &Policy, c: Classification) -> (a: Action)
    ensures
        a == spec_action(*p, c),
{
    match c {
        Classification::LiteralMatched => p.on_literal,
        Classification::SafeCall => p.on_safe_call,
        Classification::UnsafeCall => p.on_unsafe_call,
        Classification::UnknownCall => p.on_unknown_call,
        Classification::StateField => p.on_state_field,
        Classification::OtherField => p.on_other_field,
        Classification::BareSeed => p.on_bare_seed,
        Classification::NotFound => p.on_not_found,
    }
}

/// A severity for the site, or none: the policy's answer given the
/// classification and, where one was asked for, the guard verdict.
pub open spec fn spec_verdict(policy: Policy, class: Classification, guarded: Option<
    bool,
>) -> Option<Severity> {
    match spec_action(policy, class) {
        Action::Ignore => None,
        Action::Report { severity } => Some(severity),
        Action::RequireGuard { severity } => {
            if guarded == Some(true) {
                None
            } else {
                Some(severity)
            }
        },
    }
}

/// Executable form of [`spec_verdict`].
pub fn verdict_for(policy: &Policy, class: Classification, guarded: Option<bool>) -> (r: Option<
    Severity,
>)
    ensures
        r == spec_verdict(*policy, class, guarded),
{
    match action_for(policy, class) {
        Action::Ignore => None,
        Action::Report { severity } => Some(severity),
        Action::RequireGuard { severity } => {
            match guarded {
                Option::Some(true) => None,
                _ => Some(severity),
            }
        },
    }
}

/// A type-and-slot pattern: an aggregate literal of type `ty` whose
/// sensitive value stands at field `slot`.
#[derive(Clone, Copy, Debug, PartialEq, Eq, Structural)]
pub struct AggregateSlot {
    pub ty: u64,
    pub slot: usize,
}

/// The type-and-slot matcher as a seed extractor: the place read by
/// field `slot` of an aggregate literal of type `ty` at its first
/// variant, if the right-hand side is one.
pub open spec fn spec_aggregate_seed(rv: Rvalue, ty: u64, slot: int) -> Option<Place> {
    match rv {
        Rvalue::Aggregate { kind: AggregateKind::Adt { ty: t2, variant_idx }, fields } => {
            if t2 == ty && variant_idx == 0 && 0 <= slot < fields@.len() {
                op_place(fields@[slot])
            } else {
                None
            }
        },
        _ => None,
    }
}

/// Executable form of [`spec_aggregate_seed`].
pub fn aggregate_seed<'a>(stmt: &'a Statement, ty: u64, slot: usize) -> (r: Option<&'a Place>)
    ensures
        match r {
            Option::Some(p) => spec_aggregate_seed(stmt.rv, ty, slot as int) == Some(*p),
            Option::None => spec_aggregate_seed(stmt.rv, ty, slot as int) is None,
        },
{
    match &stmt.rv {
        Rvalue::Aggregate { kind: AggregateKind::Adt { ty: t2, variant_idx }, fields } => {
            if *t2 == ty && *variant_idx == 0 && slot < fields.len() {
                operand_place(&fields[slot])
            } else {
                None
            }
        },
        _ => None,
    }
}

/// The type-and-slot matcher as a predicate: whether the traced place is
/// the value at field `slot` of a `ty` literal, compared by base. A
/// literal with its fields permuted does not match a matcher configured
/// for another slot.
pub open spec fn spec_aggregate_matches(rv: Rvalue, ty: u64, slot: int, traced: PlaceModel) -> bool {
    match spec_aggregate_seed(rv, ty, slot) {
        Some(q) => crate::ir::base_of(q@) == crate::ir::base_of(traced),
        None => false,
    }
}

/// Executable form of [`spec_aggregate_matches`].
pub fn aggregate_matches(stmt: &Statement, ty: u64, slot: usize, traced: &Place) -> (r: bool)
    ensures
        r == spec_aggregate_matches(stmt.rv, ty, slot as int, traced@),
{
    match aggregate_seed(stmt, ty, slot) {
        Option::Some(q) => crate::ir::same_base(q, traced),
        Option::None => false,
    }
}

/// One configured lint rule over the engine.
pub struct Rule {
    /// Matcher configuration handed to the tracer.
    pub matchers: Matchers,
    /// Callees whose argument at `sensitive_arg` seeds a trace.
    pub sensitive_calls: Vec<u64>,
    /// Which argument of a sensitive call holds the value to trace.
    pub sensitive_arg: usize,
    /// When set, aggregate literals of this type and slot seed traces.
    pub seed_slot: Option<AggregateSlot>,
    /// Callees recognized as comparisons by the verifier.
    pub cmp_calls: Vec<u64>,
    /// The verdict policy.
    pub policy: Policy,
}

/// A finding: the block of the use site, the origin classification that
/// led to it, and the policy's severity.
#[derive(Clone, Copy, Debug, PartialEq, Eq, Structural)]
pub struct Finding {
    pub block: usize,
    pub class: Classification,
    pub severity: Severity,
}

/// The output tuple for one use site: the origin classification, the
/// alias chain, and the guard verdict where the policy asked for one.
/// `guarded` stays `None` exactly when the policy short-circuited — for
/// a safe-call origin under the usual policy the verifier never runs.
pub struct SiteReport {
    pub class: Classification,
    pub aliases: Vec<Place>,
    pub guarded: Option<bool>,
}

/// The analysis of one use site as a value: trace, then the guard
/// verdict when the policy's action for the classification asks for it.
pub open spec fn spec_site(body: Body, rule: Rule, use_block: usize, seed: PlaceModel) -> (
    Classification,
    Seq<PlaceModel>,
    Option<bool>,
) {
    let t = spec_trace(body, rule.matchers, use_block, seed);
    match spec_action(rule.policy, t.0) {
        Action::RequireGuard { .. } => (
            t.0,
            t.1,
            Some(spec_is_guarded(body, rule.cmp_calls@, use_block, spec_locals_of(t.1))),
        ),
        _ => (t.0, t.1, None),
    }
}

/// Analyzes one use site: backward-traces `seed` from `use_block`,
/// classifies its origin, and asks the verifier for a guard verdict
/// when the rule's policy requires one.
pub fn analyze_site<'a>(
    body: &'a Body,
    topo: &Topology,
    rule: &Rule,
    use_block: usize,
    seed: &'a Place,
) -> (r: SiteReport)
    requires
        body.wf(),
        topo.wf_for(*body),
        (use_block as nat) < body.blocks@.len(),
    ensures
        ({
            let s = spec_site(*body, *rule, use_block, seed@);
            r.class == s.0 && place_views(r.aliases@) == s.1 && r.guarded == s.2
        }),
{
    let traced = trace(body, &rule.matchers, use_block, seed);
    let class = traced.0;
    let aliases = traced.1;
    let act = action_for(&rule.policy, class);
    let guarded: Option<bool> = match act {
        Action::RequireGuard { .. } => {
            let locals = alias_locals(&aliases);
            Some(is_guarded(body, topo, &rule.cmp_calls, use_block, &locals))
        },
        _ => None,
    };
    SiteReport { class, aliases, guarded }
}

/// The seed place of a sensitive call, if the terminator is one: a
/// static call in the rule's table whose configured argument moves a
/// place.
pub open spec fn spec_term_seed(rule: Rule, term: Terminator) -> Option<Place> {
    match term {
        Terminator::Call { func: Operand::ConstFn { id }, args, .. } => {
            if rule.sensitive_calls@.contains(id) && (rule.sensitive_arg as nat) < args@.len() {
                match args@[rule.sensitive_arg as int] {
                    Operand::MoveOf { place } => Some(place),
                    _ => None,
                }
            } else {
                None
            }
        },
        _ => None,
    }
}

/// Executable form of [`spec_term_seed`].
pub fn term_seed<'a>(rule: &Rule, term: &'a Terminator) -> (r: Option<&'a Place>)
    ensures
        match r {
            Option::Some(p) => spec_term_seed(*rule, *term) == Some(*p),
            Option::None => spec_term_seed(*rule, *term) is None,
        },
{
    match term {
        Terminator::Call { func: Operand::ConstFn { id }, args, .. } => {
            if crate::ir::id_in(&rule.sensitive_calls, *id) && rule.sensitive_arg < args.len() {
                match &args[rule.sensitive_arg] {
                    Operand::MoveOf { place } => Some(place),
                    _ => None,
                }
            } else {
                None
            }
        },
        _ => None,
    }
}

/// The finding, if any, that one seeded use site yields.
pub open spec fn site_finding(body: Body, rule: Rule, b: usize, seed: PlaceModel) -> Option<
    Finding,
> {
    let s = spec_site(body, rule, b, seed);
    match spec_verdict(rule.policy, s.0, s.2) {
        None => None,
        Some(sev) => Some(Finding { block: b, class: s.0, severity: sev }),
    }
}

/// The finding, if any, of one assignment in block `b`.
pub open spec fn stmt_finding(body: Body, rule: Rule, b: usize, stmt: Statement) -> Option<
    Finding,
> {
    match rule.seed_slot {
        None => None,
        Some(sl) => match spec_aggregate_seed(stmt.rv, sl.ty, sl.slot as int) {
            None => None,
            Some(seedpl) => site_finding(body, rule, b, seedpl@),
        },
    }
}

/// The finding, if any, of block `b`'s terminator.
pub open spec fn term_finding(body: Body, rule: Rule, b: usize) -> Option<Finding> {
    match spec_term_seed(rule, body.blocks@[b as int].term) {
        None => None,
        Some(seedpl) => site_finding(body, rule, b, seedpl@),
    }
}

/// The findings of the first `j` assignments of block `b`, in order.
pub open spec fn stmt_findings_upto(body: Body, rule: Rule, b: usize, j: int) -> Seq<Finding>
    decreases j,
{
    if j <= 0 {
        Seq::empty()
    } else {
        stmt_findings_upto(body, rule, b, j - 1) + match stmt_finding(
            body,
            rule,
            b,
            body.blocks@[b as int].stmts@[j - 1],
        ) {
            None => Seq::empty(),
            Some(f) => seq![f],
        }
    }
}

/// The findings of block `b`: its assignments in order, then its
/// terminator.
pub open spec fn block_findings(body: Body, rule: Rule, b: usize) -> Seq<Finding> {
    stmt_findings_upto(body, rule, b, body.blocks@[b as int].stmts@.len() as int) + match
        term_finding(body, rule, b) {
        None => Seq::empty(),
        Some(f) => seq![f],
    }
}

/// The findings of the first `b` blocks, in block order.
pub open spec fn scan_upto(body: Body, rule: Rule, b: int) -> Seq<Finding>
    decreases b,
{
    if b <= 0 {
        Seq::empty()
    } else {
        scan_upto(body, rule, b - 1) + block_findings(body, rule, (b - 1) as usize)
    }
}

/// Every finding the rule raises on `body`, in block order. A pure
/// function of the body and the rule: see [`lemma_scan_deterministic`].
pub open spec fn spec_scan(body: Body, rule: Rule) -> Seq<Finding> {
    scan_upto(body, rule, body.blocks@.len() as int)
}

/// Scans a whole body under one rule: every aggregate-literal site and
/// every sensitive-call site is traced, verified where the policy asks,
/// and folded into findings.
pub fn scan_body(body: &Body, topo: &Topology, rule: &Rule) -> (r: Vec<Finding>)
    requires
        body.wf(),
        topo.wf_for(*body),
    ensures
        r@ == spec_scan(*body, *rule),
{
    let n = body.blocks.len();
    let mut out: Vec<Finding> = Vec::new();
    let mut b: usize = 0;
    while b < n
        invariant
            body.wf(),
            topo.wf_for(*body),
            n == body.blocks@.len(),
            b <= n,
            out@ == scan_upto(*body, *rule, b as int),
        decreases n - b,
    {
        let n_stmts = body.blocks[b].stmts.len();
        let mut j: usize = 0;
        while j < n_stmts
            invariant
                body.wf(),
                topo.wf_for(*body),
                n == body.blocks@.len(),
                b < n,
                n_stmts == body.blocks@[b as int].stmts@.len(),
                j <= n_stmts,
                out@ == scan_upto(*body, *rule, b as int) + stmt_findings_upto(
                    *body,
                    *rule,
                    b,
                    j as int,
                ),
            decreases n_stmts - j,
        {
            let stmt = &body.blocks[b].stmts[j];
            match &rule.seed_slot {
                Option::Some(sl) => {
                    match aggregate_seed(stmt, sl.ty, sl.slot) {
                        Option::Some(seed) => {
                            let rep = analyze_site(body, topo, rule, b, seed);
                            match verdict_for(&rule.policy, rep.class, rep.guarded) {
                                Option::Some(sev) => {
                                    let ghost prior = out@;
                                    out.push(
                                        Finding { block: b, class: rep.class, severity: sev },
                                    );
                                    proof {
                                        assert(out@ =~= prior + seq![
                                            Finding { block: b, class: rep.class, severity: sev },
                                        ]);
                                    }
                                },
                                Option::None => {},
                            }
                        },
                        Option::None => {},
                    }
                },
                Option::None => {},
            }
            proof {
                assert(out@ =~= scan_upto(*body, *rule, b as int) + stmt_findings_upto(
                    *body,
                    *rule,
                    b,
                    j as int + 1,
                ));
            }
            j = j + 1;
        }
        match term_seed(rule, &body.blocks[b].term) {
            Option::Some(seed) => {
                let rep = analyze_site(body, topo, rule, b, seed);
                match verdict_for(&rule.policy, rep.class, rep.guarded) {
                    Option::Some(sev) => {
                        let ghost prior = out@;
                        out.push(Finding { block: b, class: rep.class, severity: sev });
                        proof {
                            assert(out@ =~= prior + seq![
                                Finding { block: b, class: rep.class, severity: sev },
                            ]);
                        }
                    },
                    Option::None => {},
                }
            },
            Option::None => {},
        }
        proof {
            assert(out@ =~= scan_upto(*body, *rule, b as int + 1));
        }
        b = b + 1;
    }
    out
}

/// Fail-closed exhaustion: under a policy that reports an exhausted
/// search, a `NotFound` classification always yields a finding, whatever
/// the guard verdict — never a silent pass.
pub proof fn lemma_fail_closed_exhaustion(policy: Policy, guarded: Option<bool>)
    requires
        policy.on_not_found matches Action::Report { .. },
    ensures
        spec_verdict(policy, Classification::NotFound, guarded) is Some,
{
}

/// Safe-call short-circuit: when the policy ignores safe-call origins,
/// a site classified as a safe call is never handed to the verifier —
/// its guard verdict stays empty.
pub proof fn lemma_safe_call_short_circuit(
    body: Body,
    rule: Rule,
    use_block: usize,
    seed: PlaceModel,
)
    requires
        spec_trace(body, rule.matchers, use_block, seed).0 == Classification::SafeCall,
        rule.policy.on_safe_call is Ignore,
    ensures
        spec_site(body, rule, use_block, seed).2 is None,
{
}

/// Idempotence of the pipeline: the findings of a scan are a function
/// of the immutable body and the rule alone, so two runs over the same
/// body agree exactly.
pub proof fn lemma_scan_deterministic(body: Body, rule: Rule, r1: Seq<Finding>, r2: Seq<Finding>)
    requires
        r1 == spec_scan(body, rule),
        r2 == spec_scan(body, rule),
    ensures
        r1 == r2,
{
}

/// Idempotence at one site: the classification, alias chain and guard
/// verdict of a use site are a function of the body, the rule, the
/// block and the seed alone.
pub proof fn lemma_site_deterministic(
    body: Body,
    rule: Rule,
    use_block: usize,
    seed: PlaceModel,
    r1: (Classification, Seq<PlaceModel>, Option<bool>),
    r2: (Classification, Seq<PlaceModel>, Option<bool>),
)
    requires
        r1 == spec_site(body, rule, use_block, seed),
        r2 == spec_site(body, rule, use_block, seed),
    ensures
        r1 == r2,
{
}

} // verus!
