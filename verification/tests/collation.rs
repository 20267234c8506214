use ogc_cql2::ds::collation::{cmp_aci, cmp_ai, cmp_ci};
use std::cmp::Ordering;

#[test]
fn test_cmp_ci() {
    let eq = cmp_ci("abc", "ABC");
    assert_eq!(eq, Ordering::Equal);

    let eq = cmp_ci("ABC", "abc");
    assert_eq!(eq, Ordering::Equal);

    let eq = cmp_ci("aBc", "AbC");
    assert_eq!(eq, Ordering::Equal);

    let eq = cmp_ci("abcd", "ABCe");
    assert_eq!(eq, Ordering::Less);

    let eq = cmp_ci("bcd", "ACz");
    assert_eq!(eq, Ordering::Greater);
}

#[test]
fn test_cmp_ai() {
    let eq = cmp_ai("ÁBC", "ABC");
    assert_eq!(eq, Ordering::Equal);

    let eq = cmp_ai("ÁBC", "ABÇ");
    assert_eq!(eq, Ordering::Equal);
}

#[test]
fn test_cmp_aci() {
    let eq = cmp_aci("ábc", "ABÇ");
    assert_eq!(eq, Ordering::Equal);
}

#[test]
fn collation_reverses_when_swapped() {
    for (a, b) in [("abc", "abd"), ("Zeta", "alpha"), ("", "a"), ("é", "e")] {
        assert_eq!(cmp_ci(a, b), cmp_ci(b, a).reverse());
        assert_eq!(cmp_ai(a, b), cmp_ai(b, a).reverse());
        assert_eq!(cmp_aci(a, b), cmp_aci(b, a).reverse());
    }
    assert_eq!(cmp_ai("é", "e"), Ordering::Equal);
    assert_eq!(cmp_ci("é", "É"), Ordering::Equal);
    assert_eq!(cmp_ci("é", "e"), Ordering::Greater);
}
