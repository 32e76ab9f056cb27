//! Decision logic of rule passes that run beside the dataflow engine.
//!
//! A host front end walks declarations and expressions and reduces what
//! it sees to plain facts: whether a function mentions an account
//! value, whether a declared account field carries a given constraint,
//! which types a program deserializes. The verdicts over those facts
//! live here, stated exactly, so the host side holds no rule logic of
//! its own.

use vstd::prelude::*;

verus! {

/// The declared type of one field of an accounts declaration, as the
/// host reports it.
#[derive(Clone, Copy, Debug, PartialEq, Eq, Structural)]
pub enum AccountFieldKind {
    /// A raw account value: nothing is checked about it.
    AccountInfo,
    /// An explicitly unchecked account.
    UncheckedAccount,
    /// Program state, checked on load.
    AccountLoader,
    /// A system variable account; its key is checked.
    Sysvar,
    /// Program state, checked on deserialization.
    Account,
    /// A program account; its identity is checked.
    Program,
    /// One of a set of program accounts.
    Interface,
    /// State of one of a set of programs.
    InterfaceAccount,
    /// An account that must have signed the transaction.
    Signer,
    /// An account owned by the system program.
    SystemAccount,
    /// Data of an upgradeable program.
    ProgramData,
}

/// Whether a declared field kind carries no check of its own and might
/// therefore need to be a signer.
pub open spec fn field_kind_unchecked(k: AccountFieldKind) -> bool {
    match k {
        AccountFieldKind::AccountInfo => true,
        AccountFieldKind::UncheckedAccount => true,
        AccountFieldKind::SystemAccount => true,
        _ => false,
    }
}

/// The signer-check rule: a program that reads accounts but never
/// consults who signed the transaction lets anyone invoke its
/// privileged operations.
///
/// The pass first learns whether the crate is a generated program (the
/// host reports that once per crate), and from there judges either
/// free functions or declared account fields.
pub struct MissingSignerCheck {
    /// Whether the crate under analysis is a generated program, whose
    /// functions are judged by their account declarations instead.
    pub is_anchor: bool,
}

impl MissingSignerCheck {
    /// A fresh pass; until the crate is observed it is taken to be
    /// hand-written.
    pub fn new() -> (r: Self)
        ensures
            !r.is_anchor,
    {
        MissingSignerCheck { is_anchor: false }
    }

    /// Records what the host saw of the crate's layout.
    pub fn observe_crate(&mut self, is_anchor_program: bool)
        ensures
            final(self).is_anchor == is_anchor_program,
    {
        self.is_anchor = is_anchor_program;
    }

    /// Whether a hand-written function is reported: it is a free
    /// function that handles an account value, takes no context whose
    /// accounts declare a signer, and never reads a signer flag.
    pub fn flags_function(
        &self,
        is_free_fn: bool,
        uses_account_info: bool,
        context_has_signer_field: bool,
        uses_is_signer: bool,
    ) -> (r: bool)
        ensures
            r == (!self.is_anchor && is_free_fn && uses_account_info && !context_has_signer_field
                && !uses_is_signer),
    {
        !self.is_anchor && is_free_fn && uses_account_info && !context_has_signer_field
            && !uses_is_signer
    }

    /// Whether a declared account field of a generated program is
    /// reported: its kind carries no check of its own and no signer
    /// constraint was declared on it.
    pub fn flags_account_field(&self, kind: AccountFieldKind, has_signer_constraint: bool) -> (r:
        bool)
        ensures
            r == (self.is_anchor && field_kind_unchecked(kind) && !has_signer_constraint),
    {
        let unchecked = match kind {
            AccountFieldKind::AccountInfo => true,
            AccountFieldKind::UncheckedAccount => true,
            AccountFieldKind::SystemAccount => true,
            _ => false,
        };
        self.is_anchor && unchecked && !has_signer_constraint
    }
}

/// The constraints declared on one account field that matter to the
/// owner-check rule.
#[derive(Clone, Copy, Debug, PartialEq, Eq, Structural)]
pub struct OwnerConstraints {
    /// The account must sign; assumed to be a keypair account.
    pub signer: bool,
    /// The account is created on demand, with its owner set.
    pub init_if_needed: bool,
    /// The key is derived from seeds, which fixes it.
    pub seeds: bool,
    /// The key is checked against a given address.
    pub address: bool,
    /// The owner is checked against a given program.
    pub owner: bool,
    /// The account is an executable, owned by a loader.
    pub executable: bool,
}

/// Whether declared constraints already pin the account down enough to
/// exempt it from an explicit owner check.
pub open spec fn spec_constraints_exempt(c: OwnerConstraints) -> bool {
    c.signer || c.init_if_needed || c.seeds || c.address || c.owner || c.executable
}

/// Executable form of [`spec_constraints_exempt`].
pub fn constraints_exempt_owner_check(c: &OwnerConstraints) -> (r: bool)
    ensures
        r == spec_constraints_exempt(*c),
{
    c.signer || c.init_if_needed || c.seeds || c.address || c.owner || c.executable
}

/// The owner-check rule's verdict for one account use: it is reported
/// unless the function reads the account's owner, compares its key, or
/// declares a constraint that already pins it down.
pub fn flags_account_use(
    owner_field_used: bool,
    key_compared: bool,
    constraints: Option<OwnerConstraints>,
) -> (r: bool)
    ensures
        r == (!owner_field_used && !key_compared && (match constraints {
            Some(c) => !spec_constraints_exempt(c),
            None => true,
        })),
{
    let exempt = match constraints {
        Option::Some(c) => constraints_exempt_owner_check(&c),
        Option::None => false,
    };
    !owner_field_used && !key_compared && !exempt
}

/// The system-variable accounts a program can declare or load.
#[derive(Clone, Copy, Debug, PartialEq, Eq, Structural)]
pub enum SysvarKind {
    Clock,
    EpochRewards,
    EpochSchedule,
    Fees,
    LastRestartSlot,
    Rent,
    SlotHashes,
    SlotHistory,
    StakeHistory,
    Instructions,
    RecentBlockhashes,
}

/// Whether a system variable offers the direct getter: for these,
/// loading the value out of a passed account wastes transaction space
/// and compute, and the direct call is reported as the better form.
pub open spec fn spec_sysvar_has_get(kind: SysvarKind) -> bool {
    match kind {
        SysvarKind::Clock => true,
        SysvarKind::EpochRewards => true,
        SysvarKind::EpochSchedule => true,
        SysvarKind::Fees => true,
        SysvarKind::LastRestartSlot => true,
        SysvarKind::Rent => true,
        _ => false,
    }
}

/// Executable form of [`spec_sysvar_has_get`].
pub fn sysvar_has_get(kind: SysvarKind) -> (r: bool)
    ensures
        r == spec_sysvar_has_get(kind),
{
    match kind {
        SysvarKind::Clock => true,
        SysvarKind::EpochRewards => true,
        SysvarKind::EpochSchedule => true,
        SysvarKind::Fees => true,
        SysvarKind::LastRestartSlot => true,
        SysvarKind::Rent => true,
        _ => false,
    }
}

/// How the account-closing rule decides: zeroing an account's balance
/// without also clearing its data leaves the bytes alive within the
/// transaction, where a trailing instruction can revive the account.
/// A body that both copies the leading eight bytes and compares an
/// eight-byte array is taken to be the deliberate defund idiom; a loop
/// that writes zeroes is taken to clear the data.
pub fn flags_account_close(
    zeroes_lamports: bool,
    copies_first_eight_bytes: bool,
    compares_eight_byte_array: bool,
    zeroes_data_in_loop: bool,
) -> (r: bool)
    ensures
        r == (zeroes_lamports && !(copies_first_eight_bytes && compares_eight_byte_array)
            && !zeroes_data_in_loop),
{
    zeroes_lamports && !(copies_first_eight_bytes && compares_eight_byte_array)
        && !zeroes_data_in_loop
}

/// Whether a key comparison relating `a` and `b`, in either order, was
/// declared or found in the function body.
pub open spec fn pair_checked(checks: Seq<(u64, u64)>, a: u64, b: u64) -> bool {
    checks.contains((a, b)) || checks.contains((b, a))
}

/// Executable form of [`pair_checked`].
pub fn pair_is_checked(checks: &Vec<(u64, u64)>, a: u64, b: u64) -> (r: bool)
    ensures
        r == pair_checked(checks@, a, b),
{
    let mut k: usize = 0;
    while k < checks.len()
        invariant
            k <= checks@.len(),
            forall|i: int| 0 <= i < k ==> checks@[i] != (a, b) && checks@[i] != (b, a),
        decreases checks@.len() - k,
    {
        let c = checks[k];
        if (c.0 == a && c.1 == b) || (c.0 == b && c.1 == a) {
            proof {
                assert(checks@[k as int] == (a, b) || checks@[k as int] == (b, a));
            }
            return true;
        }
        k = k + 1;
    }
    false
}

/// The unchecked pairs of the row at `i`: `(group[i], group[j])` for
/// `j` in `i + 1 .. jj` with no key comparison relating the two.
pub open spec fn row_upto(group: Seq<u64>, checks: Seq<(u64, u64)>, i: int, jj: int) -> Seq<
    (u64, u64),
>
    decreases jj - i,
{
    if jj <= i + 1 {
        Seq::empty()
    } else {
        row_upto(group, checks, i, jj - 1) + if pair_checked(checks, group[i], group[jj - 1]) {
            Seq::empty()
        } else {
            seq![(group[i], group[jj - 1])]
        }
    }
}

/// The unchecked pairs of the first `ii` rows, in scan order.
pub open spec fn rows_upto(group: Seq<u64>, checks: Seq<(u64, u64)>, ii: int) -> Seq<(u64, u64)>
    decreases ii,
{
    if ii <= 0 {
        Seq::empty()
    } else {
        rows_upto(group, checks, ii - 1) + row_upto(group, checks, ii - 1, group.len() as int)
    }
}

/// Every unordered pair of same-type accounts that no key comparison
/// relates, in scan order.
pub open spec fn spec_unchecked_pairs(group: Seq<u64>, checks: Seq<(u64, u64)>) -> Seq<(u64, u64)> {
    rows_upto(group, checks, group.len() as int)
}

/// The duplicate-accounts rule: two accounts of the same declared type
/// in one instruction can be satisfied by a single account passed
/// twice, unless a key comparison proves them distinct. Given one
/// same-type group of accounts and the declared or found key
/// comparisons, returns every pair that no comparison relates — each
/// one a finding.
pub fn unchecked_pairs(group: &Vec<u64>, checks: &Vec<(u64, u64)>) -> (r: Vec<(u64, u64)>)
    ensures
        r@ == spec_unchecked_pairs(group@, checks@),
{
    let n = group.len();
    let mut r: Vec<(u64, u64)> = Vec::new();
    let mut i: usize = 0;
    while i < n
        invariant
            n == group@.len(),
            i <= n,
            r@ == rows_upto(group@, checks@, i as int),
        decreases n - i,
    {
        let mut j: usize = i + 1;
        while j < n
            invariant
                n == group@.len(),
                i < n,
                i + 1 <= j <= n,
                r@ == rows_upto(group@, checks@, i as int) + row_upto(
                    group@,
                    checks@,
                    i as int,
                    j as int,
                ),
            decreases n - j,
        {
            if !pair_is_checked(checks, group[i], group[j]) {
                let ghost prior = r@;
                r.push((group[i], group[j]));
                proof {
                    assert(r@ =~= prior + seq![(group@[i as int], group@[j as int])]);
                }
            }
            proof {
                assert(r@ =~= rows_upto(group@, checks@, i as int) + row_upto(
                    group@,
                    checks@,
                    i as int,
                    j as int + 1,
                ));
            }
            j = j + 1;
        }
        i = i + 1;
    }
    proof {
        assert(r@ =~= rows_upto(group@, checks@, n as int));
    }
    r
}

/// What the host reports of one declared type: its identity, whether it
/// is an enum, how many variants it has, and the type of its first
/// field, when it has one.
#[derive(Clone, Copy, Debug, PartialEq, Eq, Structural)]
pub struct AdtShape {
    pub id: u64,
    pub is_enum: bool,
    pub variant_count: usize,
    pub first_field_ty: Option<u64>,
}

/// The first entry of `table` describing type `id`.
pub open spec fn spec_shape_of(table: Seq<AdtShape>, id: u64) -> Option<AdtShape>
    decreases table.len(),
{
    if table.len() == 0 {
        None
    } else if table[0].id == id {
        Some(table[0])
    } else {
        spec_shape_of(table.drop_first(), id)
    }
}

/// Executable form of [`spec_shape_of`].
pub fn shape_of(table: &Vec<AdtShape>, id: u64) -> (r: Option<AdtShape>)
    ensures
        r == spec_shape_of(table@, id),
{
    let mut k: usize = 0;
    proof {
        assert(table@.skip(0) =~= table@);
    }
    while k < table.len()
        invariant
            k <= table@.len(),
            spec_shape_of(table@, id) == spec_shape_of(table@.skip(k as int), id),
        decreases table@.len() - k,
    {
        proof {
            assert(table@.skip(k as int)[0] == table@[k as int]);
            assert(table@.skip(k as int).drop_first() =~= table@.skip(k as int + 1));
        }
        if table[k].id == id {
            return Some(table[k]);
        }
        k = k + 1;
    }
    proof {
        assert(table@.skip(k as int).len() == 0);
    }
    None
}

/// Whether deserialized type `id` carries a proper discriminant: its
/// first field is an enum with at least as many variants as there are
/// deserialized struct types, so no two of them read back alike.
pub open spec fn spec_has_discriminant(table: Seq<AdtShape>, id: u64, num_structs: usize) -> bool {
    match spec_shape_of(table, id) {
        None => false,
        Some(shape) => match shape.first_field_ty {
            None => false,
            Some(fty) => match spec_shape_of(table, fty) {
                None => false,
                Some(fshape) => fshape.is_enum && fshape.variant_count >= num_structs,
            },
        },
    }
}

/// Executable form of [`spec_has_discriminant`].
pub fn has_discriminant(table: &Vec<AdtShape>, id: u64, num_structs: usize) -> (r: bool)
    ensures
        r == spec_has_discriminant(table@, id, num_structs),
{
    match shape_of(table, id) {
        Option::None => false,
        Option::Some(shape) => match shape.first_field_ty {
            Option::None => false,
            Option::Some(fty) => match shape_of(table, fty) {
                Option::None => false,
                Option::Some(fshape) => fshape.is_enum && fshape.variant_count >= num_structs,
            },
        },
    }
}

/// The deserialization-confusion rule's verdict over a whole crate.
#[derive(Clone, Debug, PartialEq, Eq)]
pub enum CosplayVerdict {
    /// Nothing is deserialized; nothing to report.
    NoTypes,
    /// Several ADT kinds are deserialized; their values can read back
    /// as one another.
    MixedKinds,
    /// More than one enum is deserialized; two enums can read back as
    /// one another.
    MultipleEnums,
    /// Exactly one enum is deserialized; its built-in tag separates all
    /// its variants.
    SingleEnum,
    /// Only structs (or unions) are deserialized; those listed lack a
    /// proper discriminant and are reported.
    MissingDiscriminants { missing: Vec<u64> },
}

/// The deserialized struct ids among the first `j` that lack a proper
/// discriminant, in order.
pub open spec fn spec_missing_upto(table: Seq<AdtShape>, ids: Seq<u64>, num: usize, j: int) -> Seq<
    u64,
>
    decreases j,
{
    if j <= 0 {
        Seq::empty()
    } else {
        spec_missing_upto(table, ids, num, j - 1) + if spec_has_discriminant(
            table,
            ids[j - 1],
            num,
        ) {
            Seq::empty()
        } else {
            seq![ids[j - 1]]
        }
    }
}

/// Every deserialized struct id lacking a proper discriminant.
pub open spec fn spec_missing(table: Seq<AdtShape>, ids: Seq<u64>) -> Seq<u64> {
    spec_missing_upto(table, ids, ids.len() as usize, ids.len() as int)
}

fn missing_discriminants(table: &Vec<AdtShape>, ids: &Vec<u64>) -> (r: Vec<u64>)
    ensures
        r@ == spec_missing(table@, ids@),
{
    let num = ids.len();
    let mut r: Vec<u64> = Vec::new();
    let mut j: usize = 0;
    while j < num
        invariant
            num == ids@.len(),
            j <= num,
            r@ == spec_missing_upto(table@, ids@, num, j as int),
        decreases num - j,
    {
        if !has_discriminant(table, ids[j], num) {
            let ghost prior = r@;
            r.push(ids[j]);
            proof {
                assert(r@ =~= prior + seq![ids@[j as int]]);
            }
        }
        j = j + 1;
    }
    r
}

/// The crate-wide verdict of the deserialization-confusion rule, from
/// the ids of the deserialized types grouped by ADT kind and the
/// host-reported shape table.
///
/// Deserializing from more than one kind, or from more than one enum,
/// is reported as such; a single enum is accepted; structs and unions
/// are each required to carry a proper discriminant.
pub fn cosplay_verdict(
    table: &Vec<AdtShape>,
    structs: &Vec<u64>,
    enums: &Vec<u64>,
    unions: &Vec<u64>,
) -> (r: CosplayVerdict)
    ensures
        ({
            let kinds = (if structs@.len() > 0 {
                1int
            } else {
                0int
            }) + (if enums@.len() > 0 {
                1int
            } else {
                0int
            }) + (if unions@.len() > 0 {
                1int
            } else {
                0int
            });
            &&& (kinds == 0) ==> r == CosplayVerdict::NoTypes
            &&& (kinds >= 2) ==> r == CosplayVerdict::MixedKinds
            &&& (kinds == 1 && enums@.len() > 1) ==> r == CosplayVerdict::MultipleEnums
            &&& (kinds == 1 && enums@.len() == 1) ==> r == CosplayVerdict::SingleEnum
            &&& (kinds == 1 && structs@.len() > 0) ==> (r matches
                CosplayVerdict::MissingDiscriminants { missing } && missing@ == spec_missing(
                table@,
                structs@,
            ))
            &&& (kinds == 1 && unions@.len() > 0) ==> (r matches
                CosplayVerdict::MissingDiscriminants { missing } && missing@ == spec_missing(
                table@,
                unions@,
            ))
        }),
{
    let mut kinds: usize = 0;
    if structs.len() > 0 {
        kinds = kinds + 1;
    }
    if enums.len() > 0 {
        kinds = kinds + 1;
    }
    if unions.len() > 0 {
        kinds = kinds + 1;
    }
    if kinds == 0 {
        CosplayVerdict::NoTypes
    } else if kinds >= 2 {
        CosplayVerdict::MixedKinds
    } else if enums.len() > 1 {
        CosplayVerdict::MultipleEnums
    } else if enums.len() == 1 {
        CosplayVerdict::SingleEnum
    } else if structs.len() > 0 {
        CosplayVerdict::MissingDiscriminants { missing: missing_discriminants(table, structs) }
    } else {
        CosplayVerdict::MissingDiscriminants { missing: missing_discriminants(table, unions) }
    }
}

} // verus!
