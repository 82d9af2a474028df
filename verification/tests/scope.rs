use websxz_accounts_backend::data::scope::{parse_scopes, satisfies, scopes, Scope, ALL_SCOPES};

#[test]
fn scopes_of_nothing_is_zero() {
    assert_eq!(scopes(&[]), 0);
}

#[test]
fn scopes_sets_one_bit_per_scope() {
    assert_eq!(scopes(&[Scope::ProfileRead]), 1);
    assert_eq!(scopes(&[Scope::ProfileWrite]), 2);
    assert_eq!(scopes(&[Scope::ProfileRead, Scope::ProfileWrite]), 3);
    assert_eq!(scopes(&[Scope::ProfileWrite, Scope::ProfileRead]), 3);
}

#[test]
fn scopes_collapses_duplicates() {
    assert_eq!(scopes(&[Scope::ProfileWrite, Scope::ProfileWrite]), 2);
    assert_eq!(
        scopes(&[Scope::ProfileRead, Scope::ProfileWrite, Scope::ProfileRead]),
        ALL_SCOPES
    );
}

#[test]
fn scope_masks_are_single_bits() {
    assert_eq!(Scope::ProfileRead.mask(), 1);
    assert_eq!(Scope::ProfileWrite.mask(), 2);
}

#[test]
fn satisfies_is_containment_not_equality() {
    assert!(satisfies(3, 1));
    assert!(satisfies(3, 2));
    assert!(satisfies(3, 3));
    assert!(satisfies(1, 1));
    assert!(satisfies(1, 0));
    assert!(satisfies(0, 0));
    assert!(!satisfies(1, 3));
    assert!(!satisfies(2, 1));
    assert!(!satisfies(0, 2));
}

#[test]
fn superset_grant_satisfies_subset_requirement() {
    let all = [Scope::ProfileRead, Scope::ProfileWrite];
    let subsets: [&[Scope]; 4] = [
        &[],
        &[Scope::ProfileRead],
        &[Scope::ProfileWrite],
        &[Scope::ProfileRead, Scope::ProfileWrite],
    ];
    for a in subsets {
        for b in subsets {
            let a_in_b = a.iter().all(|s| b.contains(s));
            assert_eq!(satisfies(scopes(b), scopes(a)), a_in_b);
        }
    }
    assert!(satisfies(scopes(&all), scopes(&[Scope::ProfileWrite])));
    assert!(!satisfies(scopes(&[Scope::ProfileWrite]), scopes(&all)));
}

#[test]
fn scope_names_round_trip() {
    assert_eq!(Scope::ProfileRead.name(), "profile.read");
    assert_eq!(Scope::ProfileWrite.name(), "profile.write");
    assert_eq!(Scope::from_name(&"profile.read".to_string()), Some(Scope::ProfileRead));
    assert_eq!(Scope::from_name(&"profile.write".to_string()), Some(Scope::ProfileWrite));
    assert_eq!(Scope::from_name(&"profile".to_string()), None);
    assert_eq!(Scope::from_name(&"Profile.Read".to_string()), None);
    assert_eq!(Scope::from_name(&"".to_string()), None);
}

#[test]
fn parse_scopes_keeps_recognized_names_in_order() {
    assert_eq!(parse_scopes("profile.read"), vec![Scope::ProfileRead]);
    assert_eq!(
        parse_scopes("profile.write profile.read"),
        vec![Scope::ProfileWrite, Scope::ProfileRead]
    );
    assert_eq!(
        parse_scopes("profile.read profile.read"),
        vec![Scope::ProfileRead, Scope::ProfileRead]
    );
}

#[test]
fn parse_scopes_drops_what_it_does_not_know() {
    assert_eq!(parse_scopes(""), Vec::<Scope>::new());
    assert_eq!(parse_scopes("   "), Vec::<Scope>::new());
    assert_eq!(parse_scopes("email profile.read admin"), vec![Scope::ProfileRead]);
    assert_eq!(parse_scopes("profile.read,profile.write"), Vec::<Scope>::new());
    assert_eq!(parse_scopes(" profile.write  "), vec![Scope::ProfileWrite]);
    assert_eq!(parse_scopes("\"profile.read\""), Vec::<Scope>::new());
}
