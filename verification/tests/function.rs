use ogc_cql2::bound::Bound;
use ogc_cql2::error::MyError;
use ogc_cql2::function::{check_arity, fn_args, fn_result, ExtDataType, FnArg, FnInfo, FnResult};
use ogc_cql2::qstring::QString;
use ogc_cql2::queryable::{Geom, Num, Q};

#[test]
fn arity_is_checked() {
    let info = FnInfo::new(vec![ExtDataType::Num, ExtDataType::Num], ExtDataType::Num);
    assert!(check_arity("sum", 2, &info).is_ok());
    match check_arity("sum", 3, &info) {
        Err(MyError::Runtime(m)) => {
            assert_eq!(m, "Function 'sum()' has wrong (3) arguments count; expected 2")
        }
        x => panic!("Unexpected {x:?}"),
    }
}

#[test]
fn arguments_follow_declared_types() {
    let info = FnInfo::new(
        vec![ExtDataType::Str, ExtDataType::Num, ExtDataType::Bool, ExtDataType::Date, ExtDataType::Geom],
        ExtDataType::Bool,
    );
    let params = vec![
        Q::Str(QString::icase("A")),
        Q::Num(Num { nan: false, key: 3 }),
        Q::Bool(true),
        Q::Instant(Bound::Date(86_400)),
        Q::Geom(Geom { key: 9 }),
    ];
    let args = fn_args(&params, &info).unwrap();
    assert_eq!(args.len(), 5);
    assert!(matches!(&args[0], FnArg::Str(s) if s.as_str() == "A" && s.is_icase()));
    assert!(matches!(args[1], FnArg::Num(Num { nan: false, key: 3 })));
    assert!(matches!(args[2], FnArg::Bool(true)));
    assert!(matches!(args[3], FnArg::Zoned(86_400)));
    assert!(matches!(args[4], FnArg::Geom(Geom { key: 9 })));

    let wrong = vec![Q::Bool(true), Q::Bool(true), Q::Bool(true), Q::Instant(Bound::Unbounded), Q::Null];
    assert!(matches!(fn_args(&wrong, &info), Err(MyError::Runtime(_))));
    let unbounded = vec![
        Q::Str(QString::plain("a")),
        Q::Num(Num { nan: false, key: 3 }),
        Q::Bool(true),
        Q::Instant(Bound::Unbounded),
        Q::Geom(Geom { key: 9 }),
    ];
    assert!(fn_args(&unbounded, &info).is_err());
}

#[test]
fn results_become_queryables() {
    let info = FnInfo::new(vec![], ExtDataType::Str);
    match fn_result(Some(FnResult::Str("foobar".to_string())), &info) {
        Q::Str(s) => assert!(s.is_plain() && s.as_str() == "foobar"),
        x => panic!("Unexpected {x:?}"),
    }
    assert!(fn_result(None, &info).is_null());
    let info = FnInfo::new(vec![], ExtDataType::Timestamp);
    assert!(matches!(fn_result(Some(FnResult::Zoned(5)), &info), Q::Instant(Bound::Timestamp(5))));
    let info = FnInfo::new(vec![], ExtDataType::Date);
    assert!(matches!(fn_result(Some(FnResult::Zoned(5)), &info), Q::Instant(Bound::Date(5))));
    assert_eq!(info.result_type(), ExtDataType::Date);
    assert!(info.arg_types().is_empty());
}
