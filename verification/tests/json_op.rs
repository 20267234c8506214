use ogc_cql2::json::{
    ArrayPredicateOp, BinaryComparisonPredicateOp, DateString, InstantString, SpatialPredicateOp,
    TemporalPredicateOp, TimestampString,
};
use ogc_cql2::op::Op;
use ogc_cql2::Outcome;

#[test]
fn operator_names_round_trip() {
    for s in ["=", "<>", "<", ">", "<=", ">="] {
        assert_eq!(BinaryComparisonPredicateOp::from_str(s).unwrap().text(), s);
    }
    for s in ["a_equals", "a_contains", "a_containedBy", "a_overlaps"] {
        assert_eq!(ArrayPredicateOp::from_str(s).unwrap().text(), s);
    }
    assert_eq!(SpatialPredicateOp::from_str("s_intersects").unwrap().text(), "s_intersects");
    assert_eq!(TemporalPredicateOp::from_str("t_metBy").unwrap().text(), "t_metBy");
    assert!(SpatialPredicateOp::from_str("S_INTERSECTS").is_err());
}

#[test]
fn instant_strings() {
    assert_eq!(DateString::from_str("2015-01-01").unwrap().to_string(), "'2015-01-01'");
    assert!(DateString::from_str("2015-1-01").is_err());
    assert_eq!(
        TimestampString::from_str("2015-01-01T00:00:00.5Z").unwrap().to_string(),
        "'2015-01-01T00:00:00.5Z'"
    );
    assert!(TimestampString::from_str("2015-01-01T00:00:00").is_err());
    assert!(matches!(InstantString::from_str("2015-01-01"), Ok(InstantString::DateString(_))));
    assert!(matches!(
        InstantString::from_str("2015-01-01T10:00:00Z"),
        Ok(InstantString::TimestampString(_))
    ));
    assert!(InstantString::from_str("yesterday").is_err());
}

#[test]
fn operators() {
    assert_eq!(Op::TFinishedBy.text(), "T_FINISHEDBY");
    assert_eq!(Op::IsNotBetween.text(), "NOT BETWEEN");
    assert!(Op::SCrosses.spatial() && !Op::SCrosses.temporal());
    assert!(Op::TAfter.instant_or_interval() && !Op::TMeets.instant_or_interval());
    assert!(Op::IsNull.nullable() && Op::Lte.comparison() && Op::Exp.arithmetic());
    assert!(Op::AOverlaps.array() && Op::IsInList.xtd_comparison());
}

#[test]
fn outcomes() {
    assert_eq!(Outcome::new(Some(&true)), Outcome::T);
    assert_eq!(Outcome::new(Some(&false)), Outcome::F);
    assert_eq!(Outcome::new(None), Outcome::N);
}
