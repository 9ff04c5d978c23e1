use tic_tac_toe::identity::Identity;

#[test]
fn identity_keeps_its_name() {
    let a = Identity::new("cosmos1host");
    assert_eq!(a.as_str(), "cosmos1host");
    assert_eq!(a.clone(), a);
    assert_eq!(a.clone().as_str(), "cosmos1host");
}

#[test]
fn same_as_is_exact_equality() {
    let a = Identity::new("alice");
    assert!(a.same_as(&Identity::new("alice")));
    assert!(!a.same_as(&Identity::new("Alice")));
    assert!(!a.same_as(&Identity::new("alice ")));
    assert!(!a.same_as(&Identity::new("")));
}

#[test]
fn shorter_names_sort_first() {
    let b = Identity::new("b");
    let aa = Identity::new("aa");
    assert!(b.precedes(&aa));
    assert!(!aa.precedes(&b));
    assert!(Identity::new("").precedes(&b));
    assert!(!b.precedes(&Identity::new("")));
}

#[test]
fn equal_length_sorts_by_first_difference() {
    let ab = Identity::new("ab");
    let ba = Identity::new("ba");
    let ac = Identity::new("ac");
    assert!(ab.precedes(&ba));
    assert!(!ba.precedes(&ab));
    assert!(ab.precedes(&ac));
    assert!(!ac.precedes(&ab));
    assert!(ac.precedes(&ba));
}

#[test]
fn no_name_precedes_itself() {
    for name in ["", "a", "host", "zz"] {
        let x = Identity::new(name);
        assert!(!x.precedes(&Identity::new(name)));
    }
}

#[test]
fn order_counts_encoded_bytes() {
    // Two bytes in UTF-8, so longer than any one-letter ASCII name.
    let e = Identity::new("\u{e9}");
    let z = Identity::new("z");
    let zz = Identity::new("zz");
    assert!(z.precedes(&e));
    assert!(!e.precedes(&z));
    assert!(zz.precedes(&e));
    assert!(!e.precedes(&zz));
}

#[test]
fn order_is_total_on_a_sample() {
    let names = ["", "a", "b", "aa", "ab", "ba", "abc", "B", "\u{e9}"];
    for x in names {
        for y in names {
            let a = Identity::new(x);
            let b = Identity::new(y);
            let outcomes =
                [a.precedes(&b), b.precedes(&a), a.same_as(&b)].iter().filter(|t| **t).count();
            assert_eq!(outcomes, 1, "{x:?} against {y:?}");
        }
    }
}
