//! The instruction model the engine operates over.
//!
//! Bodies are immutable views of a host compiler's mid-level program
//! representation, rebuilt here from plain values: every local, type and
//! callee is a stable numeric identity handed in by the host, and the
//! engine only ever compares those identities for equality.

use vstd::prelude::*;

verus! {

/// One step of a place's projection path.
#[derive(Clone, Copy, Debug, PartialEq, Eq, Structural)]
pub enum ProjElem {
    /// Follows a reference to its target.
    Deref,
    /// Selects a field by its slot index.
    Field { idx: usize },
    /// Indexes an array or slice with the value held in another local.
    ArrayIndex { local: usize },
}

/// A storage location: a base local plus an ordered projection path.
///
/// Place identity is type-erased; two places are compared through
/// [`base_of`], which mirrors the host's notion of "a bare local, or a
/// plain dereference of one".
#[derive(Clone, Debug, PartialEq, Eq)]
pub struct Place {
    pub local: usize,
    pub proj: Vec<ProjElem>,
}

/// The mathematical value of a [`Place`].
pub ghost struct PlaceModel {
    pub local: usize,
    pub proj: Seq<ProjElem>,
}

impl View for Place {
    type V = PlaceModel;

    open spec fn view(&self) -> PlaceModel {
        PlaceModel { local: self.local, proj: self.proj@ }
    }
}

/// The base local of a place, when the place is a bare local or a plain
/// dereference of one. A place with any longer projection path has no
/// single base and yields `None`.
pub open spec fn base_of(p: PlaceModel) -> Option<usize> {
    if p.proj.len() == 0 {
        Some(p.local)
    } else if p.proj.len() == 1 && p.proj[0] is Deref {
        Some(p.local)
    } else {
        None
    }
}

/// Whether the projection path of `p` reads a field somewhere.
pub open spec fn has_field_proj(p: PlaceModel) -> bool {
    exists|i: int| 0 <= i < p.proj.len() && p.proj[i] is Field
}

/// Executable form of [`base_of`].
pub fn place_base(p: &Place) -> (r: Option<usize>)
    ensures
        r == base_of(p@),
{
    if p.proj.len() == 0 {
        Some(p.local)
    } else if p.proj.len() == 1 {
        match p.proj[0] {
            ProjElem::Deref => Some(p.local),
            _ => None,
        }
    } else {
        None
    }
}

/// Whether two places share a base, `None` bases matching each other.
pub fn same_base(a: &Place, b: &Place) -> (r: bool)
    ensures
        r == (base_of(a@) == base_of(b@)),
{
    match (place_base(a), place_base(b)) {
        (Option::None, Option::None) => true,
        (Option::Some(x), Option::Some(y)) => x == y,
        _ => false,
    }
}

/// Executable form of [`has_field_proj`].
pub fn place_has_field_proj(p: &Place) -> (r: bool)
    ensures
        r == has_field_proj(p@),
{
    let mut j: usize = 0;
    while j < p.proj.len()
        invariant
            j <= p.proj.len(),
            forall|i: int| 0 <= i < j ==> !(p.proj@[i] is Field),
        decreases p.proj.len() - j,
    {
        if let ProjElem::Field { .. } = p.proj[j] {
            assert(p.proj@[j as int] is Field);
            return true;
        }
        j = j + 1;
    }
    false
}

/// A fresh place equal in value to `p`.
pub fn copy_place(p: &Place) -> (r: Place)
    ensures
        r@ == p@,
{
    let mut proj: Vec<ProjElem> = Vec::new();
    let mut j: usize = 0;
    while j < p.proj.len()
        invariant
            j <= p.proj.len(),
            proj@ == p.proj@.subrange(0, j as int),
        decreases p.proj.len() - j,
    {
        proj.push(p.proj[j]);
        proof {
            assert(p.proj@.subrange(0, j as int).push(p.proj@[j as int]) =~= p.proj@.subrange(
                0,
                j as int + 1,
            ));
        }
        j = j + 1;
    }
    proof {
        assert(p.proj@.subrange(0, p.proj@.len() as int) =~= p.proj@);
    }
    Place { local: p.local, proj }
}

/// The views of a sequence of places.
pub open spec fn place_views(s: Seq<Place>) -> Seq<PlaceModel> {
    s.map_values(|p: Place| p@)
}

pub proof fn lemma_place_views_push(s: Seq<Place>, p: Place)
    ensures
        place_views(s.push(p)) == place_views(s).push(p@),
{
    assert(place_views(s.push(p)) =~= place_views(s).push(p@));
}

/// A value used by an instruction: a copy or move of a place, or a
/// constant, which may reference a function.
#[derive(Clone, Debug, PartialEq, Eq)]
pub enum Operand {
    CopyOf { place: Place },
    MoveOf { place: Place },
    ConstVal { value: u64 },
    ConstFn { id: u64 },
}

/// The place an operand reads, if it reads one.
pub open spec fn op_place(op: Operand) -> Option<Place> {
    match op {
        Operand::CopyOf { place } => Some(place),
        Operand::MoveOf { place } => Some(place),
        Operand::ConstVal { .. } => None,
        Operand::ConstFn { .. } => None,
    }
}

/// Executable form of [`op_place`].
pub fn operand_place<'a>(op: &'a Operand) -> (r: Option<&'a Place>)
    ensures
        match r {
            Option::Some(p) => op_place(*op) == Some(*p),
            Option::None => op_place(*op) is None,
        },
{
    match op {
        Operand::CopyOf { place } => Some(place),
        Operand::MoveOf { place } => Some(place),
        Operand::ConstVal { .. } => None,
        Operand::ConstFn { .. } => None,
    }
}

/// What an aggregate construction builds.
#[derive(Clone, Copy, Debug, PartialEq, Eq, Structural)]
pub enum AggregateKind {
    /// A struct or enum literal of the named type, at the given variant.
    Adt { ty: u64, variant_idx: usize },
    /// An array literal.
    ArrayLit,
}

/// The binary operators the engine distinguishes: equality comparisons
/// versus everything else.
#[derive(Clone, Copy, Debug, PartialEq, Eq, Structural)]
pub enum BinOpKind {
    CmpEq,
    CmpNe,
    OtherOp,
}

/// The right-hand side of an assignment.
#[derive(Clone, Debug, PartialEq, Eq)]
pub enum Rvalue {
    /// A bare use of an operand: a copy or move alias.
    UseOp { op: Operand },
    /// A reference or address of a place: an alias.
    RefOf { place: Place },
    /// A cast of an operand; type narrowing is ignored, the alias is kept.
    CastOp { op: Operand },
    /// A struct, enum or array literal with its field operands in order.
    Aggregate { kind: AggregateKind, fields: Vec<Operand> },
    /// A binary operation; only comparisons are ever inspected.
    BinaryOp { op: BinOpKind, lhs: Operand, rhs: Operand },
}

/// An assignment `dest := rv`, the only statement form the engine reads.
#[derive(Clone, Debug, PartialEq, Eq)]
pub struct Statement {
    pub dest: Place,
    pub rv: Rvalue,
}

/// The control-transferring instruction ending a basic block.
#[derive(Clone, Debug, PartialEq, Eq)]
pub enum Terminator {
    /// `dest := func(args...)`, continuing at `target` on return. A
    /// `ConstFn` callee is a static call; anything else is dynamic and is
    /// never matched by a callee table.
    Call { func: Operand, args: Vec<Operand>, dest: Place, target: Option<usize> },
    /// An unconditional jump.
    Goto { target: usize },
    /// A conditional transfer with its possible targets in host order.
    Branch { targets: Vec<usize> },
    /// Leaves the body; no successors.
    Return,
}

/// The successor blocks of a terminator, in host order.
pub open spec fn spec_succs(t: Terminator) -> Seq<usize> {
    match t {
        Terminator::Call { target: Some(b), .. } => seq![b],
        Terminator::Call { target: None, .. } => Seq::empty(),
        Terminator::Goto { target } => seq![target],
        Terminator::Branch { targets } => targets@,
        Terminator::Return => Seq::empty(),
    }
}

/// How many successors a terminator has.
pub fn succ_count(t: &Terminator) -> (n: usize)
    ensures
        n == spec_succs(*t).len(),
{
    match t {
        Terminator::Call { target: Option::Some(_), .. } => 1,
        Terminator::Call { target: Option::None, .. } => 0,
        Terminator::Goto { .. } => 1,
        Terminator::Branch { targets } => targets.len(),
        Terminator::Return => 0,
    }
}

/// The `j`-th successor of a terminator.
pub fn succ_at(t: &Terminator, j: usize) -> (b: usize)
    requires
        j < spec_succs(*t).len(),
    ensures
        b == spec_succs(*t)[j as int],
{
    match t {
        Terminator::Call { target: Option::Some(b), .. } => *b,
        Terminator::Goto { target } => *target,
        Terminator::Branch { targets } => targets[j],
        _ => {
            proof {
                assert(false);
            }
            0
        },
    }
}

/// A basic block: assignments in program order, then one terminator.
#[derive(Clone, Debug, PartialEq, Eq)]
pub struct BasicBlock {
    pub stmts: Vec<Statement>,
    pub term: Terminator,
}

/// The control-flow graph of one function, with the type identity the
/// host reports for each local. A local beyond `local_types` has the
/// unknown type identity `0`.
#[derive(Clone, Debug, PartialEq, Eq)]
pub struct Body {
    pub blocks: Vec<BasicBlock>,
    pub entry: usize,
    pub local_types: Vec<u64>,
}

impl Body {
    /// Whether every successor of block `p` is a block of this body.
    pub open spec fn succs_in_range(self, p: int) -> bool {
        forall|j: int|
            0 <= j < spec_succs(self.blocks@[p].term).len() ==> (#[trigger] spec_succs(
                self.blocks@[p].term,
            )[j]) < self.blocks@.len()
    }

    /// The input contract on a host-provided body: the entry block exists
    /// and every edge stays inside the body.
    pub open spec fn wf(self) -> bool {
        &&& (self.entry as nat) < self.blocks@.len()
        &&& forall|p: int| 0 <= p < self.blocks@.len() ==> #[trigger] self.succs_in_range(p)
    }
}

/// Checks the input contract on a host-provided body, so that a caller
/// outside the verified core can establish [`Body::wf`] before handing
/// the body to the engine.
pub fn well_formed(body: &Body) -> (r: bool)
    ensures
        r == body.wf(),
{
    if body.entry >= body.blocks.len() {
        return false;
    }
    let n = body.blocks.len();
    let mut p: usize = 0;
    while p < n
        invariant
            n == body.blocks@.len(),
            p <= n,
            (body.entry as nat) < body.blocks@.len(),
            forall|pp: int| 0 <= pp < p ==> #[trigger] body.succs_in_range(pp),
        decreases n - p,
    {
        let t = &body.blocks[p].term;
        let m = succ_count(t);
        let mut j: usize = 0;
        while j < m
            invariant
                n == body.blocks@.len(),
                p < n,
                t == &body.blocks@[p as int].term,
                m == spec_succs(*t).len(),
                j <= m,
                forall|i: int| 0 <= i < j ==> (#[trigger] spec_succs(*t)[i]) < n,
            decreases m - j,
        {
            if succ_at(t, j) >= n {
                proof {
                    assert(spec_succs(body.blocks@[p as int].term)[j as int] >= n);
                    assert(!body.succs_in_range(p as int));
                }
                return false;
            }
            j = j + 1;
        }
        proof {
            assert(body.succs_in_range(p as int));
        }
        p = p + 1;
    }
    true
}

/// The type identity of local `l`, `0` when the host reported none.
pub open spec fn spec_local_type(body: Body, l: usize) -> u64 {
    if (l as nat) < body.local_types@.len() {
        body.local_types@[l as int]
    } else {
        0
    }
}

/// Executable form of [`spec_local_type`].
pub fn local_type(body: &Body, l: usize) -> (r: u64)
    ensures
        r == spec_local_type(*body, l),
{
    if l < body.local_types.len() {
        body.local_types[l]
    } else {
        0
    }
}

/// Whether the graph has an edge from block `p` to block `b`.
pub open spec fn has_edge(body: Body, p: usize, b: usize) -> bool {
    &&& (p as nat) < body.blocks@.len()
    &&& spec_succs(body.blocks@[p as int].term).contains(b)
}

/// Executable form of [`has_edge`].
pub fn edge_between(body: &Body, p: usize, b: usize) -> (r: bool)
    ensures
        r == has_edge(*body, p, b),
{
    if p >= body.blocks.len() {
        return false;
    }
    let t = &body.blocks[p].term;
    let n = succ_count(t);
    let mut j: usize = 0;
    while j < n
        invariant
            n == spec_succs(*t).len(),
            j <= n,
            t == &body.blocks@[p as int].term,
            (p as nat) < body.blocks@.len(),
            forall|i: int| 0 <= i < j ==> spec_succs(*t)[i] != b,
        decreases n - j,
    {
        if succ_at(t, j) == b {
            assert(spec_succs(*t)[j as int] == b);
            return true;
        }
        j = j + 1;
    }
    assert(!spec_succs(*t).contains(b));
    false
}

/// Whether `x` stands in the identity table `table`.
pub fn id_in(table: &Vec<u64>, x: u64) -> (r: bool)
    ensures
        r == table@.contains(x),
{
    let mut k: usize = 0;
    while k < table.len()
        invariant
            k <= table@.len(),
            forall|j: int| 0 <= j < k ==> table@[j] != x,
        decreases table@.len() - k,
    {
        if table[k] == x {
            assert(table@[k as int] == x);
            return true;
        }
        k = k + 1;
    }
    false
}

} // verus!
