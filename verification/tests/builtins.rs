use ogc_cql2::bound::Bound;
use ogc_cql2::error::MyError;
use ogc_cql2::expr::call_result;
use ogc_cql2::function::{
    concat_fn, ends_with_fn, starts_with_fn, trim_fn, ExtDataType, FnArg, FnInfo, FnResult,
};
use ogc_cql2::queryable::Q;
use ogc_cql2::qstring::QString;

fn s(x: &str) -> FnArg {
    FnArg::Str(QString::plain(x))
}

#[test]
fn builtin_string_functions() {
    assert!(matches!(trim_fn(&vec![s("  a b \t")]), Some(FnResult::Str(t)) if t == "a b"));
    assert!(trim_fn(&vec![FnArg::Bool(true)]).is_none());
    assert!(matches!(trim_fn(&vec![s("\u{3000}\u{85} x\u{2009}y\n\u{a0}")]), Some(FnResult::Str(t)) if t == "x\u{2009}y"));
    assert!(matches!(trim_fn(&vec![s(" \t ")]), Some(FnResult::Str(t)) if t.is_empty()));
    assert!(matches!(concat_fn(&vec![s("ab"), s("cd")]), Some(FnResult::Str(t)) if t == "abcd"));
    assert!(concat_fn(&vec![s("ab")]).is_none());
    assert!(matches!(starts_with_fn(&vec![s("Chișinău"), s("Chi")]), Some(FnResult::Bool(true))));
    assert!(matches!(starts_with_fn(&vec![s("Chi"), s("Chișinău")]), Some(FnResult::Bool(false))));
    assert!(matches!(ends_with_fn(&vec![s("Chișinău"), s("nău")]), Some(FnResult::Bool(true))));
    assert!(matches!(ends_with_fn(&vec![s("Chișinău"), s("Chi")]), Some(FnResult::Bool(false))));
    assert!(matches!(ends_with_fn(&vec![s("x"), s("")]), Some(FnResult::Bool(true))));
}

#[test]
fn function_answers_become_queryables() {
    let info = FnInfo::new(vec![], ExtDataType::Date);
    assert!(matches!(call_result(None, &info), Ok(Q::Null)));
    assert!(matches!(
        call_result(Some(FnResult::Zoned(5)), &info),
        Ok(Q::Instant(Bound::Date(5)))
    ));
    assert!(matches!(
        call_result(Some(FnResult::Bool(true)), &info),
        Err(MyError::Runtime(m)) if m == "Function result is not of its declared type"
    ));
    let info = FnInfo::new(vec![], ExtDataType::Str);
    assert!(matches!(
        call_result(Some(FnResult::Str("x".to_string())), &info),
        Ok(Q::Str(t)) if t.as_str() == "x"
    ));
}
