use solana_lints::layouts::{EqNoADT1, EqWithStructField3, Listy, Pubkey, Rgb, Tricky1, UnEqNoADT1};
use solana_lints::rules::{
    constraints_exempt_owner_check, cosplay_verdict, flags_account_close, flags_account_use,
    has_discriminant, pair_is_checked, shape_of, sysvar_has_get, unchecked_pairs,
    AccountFieldKind, AdtShape, CosplayVerdict, MissingSignerCheck, OwnerConstraints, SysvarKind,
};
use solana_lints::utils::Conclusive;

fn no_constraints() -> OwnerConstraints {
    OwnerConstraints {
        signer: false,
        init_if_needed: false,
        seeds: false,
        address: false,
        owner: false,
        executable: false,
    }
}

#[test]
fn fresh_signer_pass_is_not_anchor() {
    let pass = MissingSignerCheck::new();
    assert!(!pass.is_anchor);
}

#[test]
fn signer_pass_flags_unchecked_free_function() {
    let pass = MissingSignerCheck::new();
    assert!(pass.flags_function(true, true, false, false));
    // Reading the signer flag, or a declared signer in the context,
    // silences the report; so does not touching accounts at all.
    assert!(!pass.flags_function(true, true, false, true));
    assert!(!pass.flags_function(true, true, true, false));
    assert!(!pass.flags_function(true, false, false, false));
    assert!(!pass.flags_function(false, true, false, false));
}

#[test]
fn signer_pass_ignores_functions_of_generated_programs() {
    let mut pass = MissingSignerCheck::new();
    pass.observe_crate(true);
    assert!(pass.is_anchor);
    assert!(!pass.flags_function(true, true, false, false));
}

#[test]
fn signer_pass_flags_unchecked_account_fields() {
    let mut pass = MissingSignerCheck::new();
    pass.observe_crate(true);
    assert!(pass.flags_account_field(AccountFieldKind::AccountInfo, false));
    assert!(pass.flags_account_field(AccountFieldKind::UncheckedAccount, false));
    assert!(pass.flags_account_field(AccountFieldKind::SystemAccount, false));
    assert!(!pass.flags_account_field(AccountFieldKind::AccountInfo, true));
    assert!(!pass.flags_account_field(AccountFieldKind::Signer, false));
    assert!(!pass.flags_account_field(AccountFieldKind::Account, false));
    assert!(!pass.flags_account_field(AccountFieldKind::Program, false));
    // Hand-written crates judge functions, not declared fields.
    let fresh = MissingSignerCheck::new();
    assert!(!fresh.flags_account_field(AccountFieldKind::AccountInfo, false));
}

#[test]
fn owner_constraints_exemptions() {
    assert!(!constraints_exempt_owner_check(&no_constraints()));
    let mut c = no_constraints();
    c.owner = true;
    assert!(constraints_exempt_owner_check(&c));
    let mut c = no_constraints();
    c.seeds = true;
    assert!(constraints_exempt_owner_check(&c));
    let mut c = no_constraints();
    c.signer = true;
    assert!(constraints_exempt_owner_check(&c));
}

#[test]
fn account_use_verdicts() {
    // Unchecked and unconstrained: reported.
    assert!(flags_account_use(false, false, None));
    assert!(flags_account_use(false, false, Some(no_constraints())));
    // An owner read or a key comparison silences it.
    assert!(!flags_account_use(true, false, None));
    assert!(!flags_account_use(false, true, None));
    // A pinning constraint silences it too.
    let mut c = no_constraints();
    c.address = true;
    assert!(!flags_account_use(false, false, Some(c)));
}

fn shape(id: u64, is_enum: bool, variant_count: usize, first_field_ty: Option<u64>) -> AdtShape {
    AdtShape { id, is_enum, variant_count, first_field_ty }
}

#[test]
fn shape_lookup_finds_first_entry() {
    let table = vec![shape(1, false, 1, None), shape(2, true, 3, None)];
    assert_eq!(shape_of(&table, 2), Some(shape(2, true, 3, None)));
    assert_eq!(shape_of(&table, 9), None);
}

#[test]
fn discriminant_requires_wide_enough_enum() {
    // Type 1's first field is enum 5 with two variants: enough for two
    // deserialized structs, not for three.
    let table = vec![shape(1, false, 1, Some(5)), shape(5, true, 2, None)];
    assert!(has_discriminant(&table, 1, 2));
    assert!(!has_discriminant(&table, 1, 3));
    // A first field that is no enum, or no first field, never counts.
    let plain = vec![shape(1, false, 1, Some(6)), shape(6, false, 1, None)];
    assert!(!has_discriminant(&plain, 1, 1));
    let bare = vec![shape(1, false, 1, None)];
    assert!(!has_discriminant(&bare, 1, 1));
}

#[test]
fn cosplay_mixed_kinds_reported() {
    let table = vec![];
    let verdict = cosplay_verdict(&table, &vec![1], &vec![2], &vec![]);
    assert_eq!(verdict, CosplayVerdict::MixedKinds);
}

#[test]
fn cosplay_multiple_enums_reported() {
    let verdict = cosplay_verdict(&vec![], &vec![], &vec![2, 3], &vec![]);
    assert_eq!(verdict, CosplayVerdict::MultipleEnums);
}

#[test]
fn cosplay_single_enum_accepted() {
    let verdict = cosplay_verdict(&vec![], &vec![], &vec![2], &vec![]);
    assert_eq!(verdict, CosplayVerdict::SingleEnum);
}

#[test]
fn cosplay_nothing_deserialized() {
    let verdict = cosplay_verdict(&vec![], &vec![], &vec![], &vec![]);
    assert_eq!(verdict, CosplayVerdict::NoTypes);
}

#[test]
fn cosplay_structs_without_discriminant_listed() {
    // Struct 1 carries a wide-enough discriminant, struct 2 does not.
    let table = vec![
        shape(1, false, 1, Some(5)),
        shape(2, false, 1, None),
        shape(5, true, 2, None),
    ];
    let verdict = cosplay_verdict(&table, &vec![1, 2], &vec![], &vec![]);
    assert_eq!(verdict, CosplayVerdict::MissingDiscriminants { missing: vec![2] });
    // Unions go through the same check.
    let verdict = cosplay_verdict(&table, &vec![], &vec![], &vec![2]);
    assert_eq!(verdict, CosplayVerdict::MissingDiscriminants { missing: vec![2] });
}

#[test]
fn direct_getter_sysvars() {
    assert!(sysvar_has_get(SysvarKind::Clock));
    assert!(sysvar_has_get(SysvarKind::Rent));
    assert!(sysvar_has_get(SysvarKind::Fees));
    assert!(!sysvar_has_get(SysvarKind::Instructions));
    assert!(!sysvar_has_get(SysvarKind::SlotHashes));
}

#[test]
fn account_close_verdicts() {
    // Zeroing the balance alone is reported.
    assert!(flags_account_close(true, false, false, false));
    // The deliberate defund idiom needs both of its marks.
    assert!(!flags_account_close(true, true, true, false));
    assert!(flags_account_close(true, true, false, false));
    assert!(flags_account_close(true, false, true, false));
    // Clearing the data in a loop silences the report, and a body that
    // never zeroes the balance was never a close.
    assert!(!flags_account_close(true, false, false, true));
    assert!(!flags_account_close(false, false, false, false));
}

#[test]
fn key_checks_relate_pairs_in_either_order() {
    let checks = vec![(1, 2), (3, 1)];
    assert!(pair_is_checked(&checks, 1, 2));
    assert!(pair_is_checked(&checks, 2, 1));
    assert!(pair_is_checked(&checks, 1, 3));
    assert!(!pair_is_checked(&checks, 2, 3));
}

#[test]
fn duplicate_accounts_without_key_check_are_paired() {
    // Three same-type accounts; only the (1, 2) pair is proven
    // distinct, so the two pairs touching account 3 remain findings.
    let group = vec![1, 2, 3];
    let checks = vec![(2, 1)];
    assert_eq!(unchecked_pairs(&group, &checks), vec![(1, 3), (2, 3)]);
    // With every pair checked nothing is reported; a lone account
    // cannot collide with itself.
    let all = vec![(1, 2), (1, 3), (3, 2)];
    assert_eq!(unchecked_pairs(&group, &all), vec![]);
    assert_eq!(unchecked_pairs(&vec![7], &vec![]), vec![]);
}

#[test]
fn option_concludes_when_some() {
    let none: Option<u32> = None;
    assert!(!none.concluded());
    assert!(Some(3u32).concluded());
}

#[test]
fn bool_concludes_when_true() {
    assert!(true.concluded());
    assert!(!false.concluded());
}

#[test]
fn layout_subjects_construct() {
    let a = EqNoADT1 { authority: 7, field2: [0; 32] };
    assert_eq!(a.authority, 7);
    let k = Pubkey([1; 32]);
    let b = EqWithStructField3 { y: 1, z: k.0 };
    assert_eq!(b.z[0], 1);
    let c = Tricky1 { x: Rgb(1, 2, 3) };
    assert_eq!(c.x.2, 3);
    let l = Listy::Jimi;
    assert!(matches!(l, Listy::Jimi));
    let u = UnEqNoADT1 { x: 9 };
    assert_eq!(u.x, 9);
}
