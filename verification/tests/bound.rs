use ogc_cql2::bound::Bound;

#[test]
fn test_bound() {
    const D: &str = "2015-01-01";
    const T: &str = "2015-01-01T00:00:00Z";

    let d = Bound::try_new_date(D);
    assert!(d.is_ok());
    let b1 = d.unwrap();
    assert!(!b1.is_unbound());
    let b1_ = b1.as_zoned();
    assert!(b1_.is_some());
    let z1 = b1_.unwrap();

    let t = Bound::try_new_timestamp(T);
    assert!(t.is_ok());
    let b2 = t.unwrap();
    assert!(!b2.is_unbound());
    let b2_ = b2.as_zoned();
    assert!(b2_.is_some());
    let z2 = b2_.unwrap();

    assert_eq!(z1, z2);
    assert!(z1 == z2);
}

#[test]
fn bound_exact_instants() {
    let d = Bound::try_new_date("1970-01-02").unwrap();
    assert_eq!(d.as_zoned(), Some(86_400_000_000_000));
    let t = Bound::try_new_timestamp("1970-01-01T00:00:01Z").unwrap();
    assert_eq!(t.as_zoned(), Some(1_000_000_000));
    assert!(Bound::try_new_date("2015-13-01").is_err());
    assert!(Bound::try_new_timestamp("not a timestamp").is_err());
    assert!(Bound::Unbounded.is_unbound());
    assert!(Bound::Unbounded.to_zoned().is_err());
}

#[test]
fn bound_order_is_strict_and_total() {
    let a = Bound::Unbounded;
    let b = Bound::Date(0);
    let c = Bound::Timestamp(5);
    assert!(a.lt(&b) && b.lt(&c) && a.lt(&c));
    assert!(!b.lt(&b));
    assert!(b.eq(&Bound::Timestamp(0)));
    assert!(c.gt(&b));
}
