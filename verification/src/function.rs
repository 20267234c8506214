//! Functions that filter expressions may call: their declared argument and
//! result types, how the values of a call's parameters are handed to a
//! function, and how what it hands back becomes a queryable.
//!
//! The functions themselves are closures registered by the users of this
//! library; they run outside of it, on the values prepared here.

use crate::bound::Bound;
use crate::error::MyError;
use crate::numeric::decimal;
use crate::numeric::u128_text;
use crate::qstring::QString;
use crate::queryable::{Geom, Num, Q};
use vstd::prelude::*;

verus! {

/// Externally visible data type variants for arguments and result types used
/// and referenced by user-defined and registered functions invoked in filter
/// expressions.
#[derive(Debug, Clone, Copy, PartialEq, Eq, Structural)]
pub enum ExtDataType {
    /// A Unicode UTF-8 string.
    Str,
    /// A numeric value including integers and floating points.
    Num,
    /// A boolean value.
    Bool,
    /// An _Instant_ with a granularity of a second or smaller. Timestamps are
    /// always in the time zone UTC ("Z").
    Timestamp,
    /// An _Instant_ with a granularity of a day. Dates are local without an
    /// associated time zone.
    Date,
    /// A spatial (geometry) value.
    Geom,
}

/// A value handed to a registered function.
#[derive(Debug)]
pub enum FnArg {
    /// A string, with its case and accent flags.
    Str(QString),
    /// A number.
    Num(Num),
    /// A boolean.
    Bool(bool),
    /// An instant (timestamp or date), in nanoseconds since the Unix epoch.
    Zoned(i128),
    /// A geometry.
    Geom(Geom),
}

/// A value a registered function hands back.
#[derive(Debug)]
pub enum FnResult {
    /// A string.
    Str(String),
    /// A number.
    Num(Num),
    /// A boolean.
    Bool(bool),
    /// An instant, in nanoseconds since the Unix epoch.
    Zoned(i128),
    /// A geometry.
    Geom(Geom),
}

/// What this library knows of a registered function: the types of its
/// arguments, in order, and the type of its result.
#[derive(Debug)]
pub struct FnInfo {
    pub(crate) arg_types: Vec<ExtDataType>,
    pub(crate) result_type: ExtDataType,
}

impl FnInfo {
    /// The argument types.
    pub closed spec fn args_spec(self) -> Seq<ExtDataType> {
        self.arg_types@
    }

    /// The result type.
    pub closed spec fn result_spec(self) -> ExtDataType {
        self.result_type
    }

    /// Describe a function by its argument and result types.
    pub fn new(arg_types: Vec<ExtDataType>, result_type: ExtDataType) -> (r: FnInfo)
        ensures
            r.args_spec() == arg_types@,
            r.result_spec() == result_type,
    {
        FnInfo { arg_types, result_type }
    }

    /// Return the argument types.
    pub fn arg_types(&self) -> (r: &Vec<ExtDataType>)
        ensures
            r@ == self.args_spec(),
    {
        &self.arg_types
    }

    /// Return the result type.
    pub fn result_type(&self) -> (r: ExtDataType)
        ensures
            r == self.result_spec(),
    {
        self.result_type
    }
}

/// The text of the error raised when a call has the wrong number of
/// parameters.
pub open spec fn arity_message(name: Seq<char>, given: nat, expected: nat) -> Seq<char> {
    "Function '"@ + name + "()' has wrong ("@ + decimal(given) + ") arguments count; expected "@
        + decimal(expected)
}

/// Check that a call of the function `name` passes as many parameters as
/// the function declares arguments; otherwise a runtime error that says
/// both counts.
pub fn check_arity(name: &str, given: usize, info: &FnInfo) -> (r: Result<(), MyError>)
    ensures
        given == info.args_spec().len() ==> r is Ok,
        given != info.args_spec().len() ==> (r matches Err(MyError::Runtime(m)) && m@
            == arity_message(name@, given as nat, info.args_spec().len())),
{
    let expected = info.arg_types.len();
    if given == expected {
        Ok(())
    } else {
        let mut m = "Function '".to_string();
        m.append(name);
        m.append("()' has wrong (");
        let g = u128_text(given as u128);
        m.append(g.as_str());
        m.append(") arguments count; expected ");
        let e = u128_text(expected as u128);
        m.append(e.as_str());
        Err(MyError::Runtime(m))
    }
}

/// Whether a queryable can be handed to a function as an argument of the
/// given type: strings as strings, numbers as numbers, booleans as
/// booleans, bounded instants as timestamps or dates, and geometries as
/// geometries.
pub open spec fn arg_fits(q: Q, t: ExtDataType) -> bool {
    match t {
        ExtDataType::Str => q is Str,
        ExtDataType::Num => q is Num,
        ExtDataType::Bool => q is Bool,
        ExtDataType::Timestamp | ExtDataType::Date => q matches Q::Instant(b) && b.instant() is Some,
        ExtDataType::Geom => q is Geom,
    }
}

/// Whether `a` is the argument a queryable that fits type `t` becomes.
pub open spec fn arg_of(a: FnArg, q: Q) -> bool {
    match (a, q) {
        (FnArg::Str(x), Q::Str(s)) => x.text() == s.text() && x.flag_bits() == s.flag_bits(),
        (FnArg::Num(x), Q::Num(n)) => x == n,
        (FnArg::Bool(x), Q::Bool(b)) => x == b,
        (FnArg::Zoned(x), Q::Instant(b)) => b.instant() == Some(x),
        (FnArg::Geom(x), Q::Geom(g)) => x == g,
        _ => false,
    }
}

/// Whether an argument is of the declared type: a string, a number, a
/// boolean, an instant (for timestamps and dates) or a geometry.
pub open spec fn fn_arg_fits(a: FnArg, t: ExtDataType) -> bool {
    match t {
        ExtDataType::Str => a is Str,
        ExtDataType::Num => a is Num,
        ExtDataType::Bool => a is Bool,
        ExtDataType::Timestamp | ExtDataType::Date => a is Zoned,
        ExtDataType::Geom => a is Geom,
    }
}

/// Whether arguments are as many as the declared types, each of its type.
pub open spec fn args_fit(args: Seq<FnArg>, types: Seq<ExtDataType>) -> bool {
    args.len() == types.len() && forall|k: int|
        0 <= k < args.len() ==> fn_arg_fits(#[trigger] args[k], types[k])
}

/// Whether `args` are the arguments that the values `qs` become.
pub open spec fn args_of(args: Seq<FnArg>, qs: Seq<Q>) -> bool {
    args.len() == qs.len() && forall|k: int| 0 <= k < args.len() ==> arg_of(#[trigger] args[k], qs[k])
}

/// Turn one evaluated parameter into the argument of the declared type.
pub fn fn_arg(q: &Q, t: ExtDataType) -> (r: Result<FnArg, MyError>)
    ensures
        r is Ok <==> arg_fits(*q, t),
        r matches Ok(a) ==> arg_of(a, *q) && fn_arg_fits(a, t),
        r matches Err(e) ==> e is Runtime,
{
    match t {
        ExtDataType::Str => match q.to_str() {
            Ok(s) => Ok(FnArg::Str(s)),
            Err(e) => Err(e),
        },
        ExtDataType::Num => match q.to_num() {
            Ok(n) => Ok(FnArg::Num(n)),
            Err(e) => Err(e),
        },
        ExtDataType::Bool => match q.to_bool() {
            Ok(b) => Ok(FnArg::Bool(b)),
            Err(e) => Err(e),
        },
        ExtDataType::Timestamp | ExtDataType::Date => {
            let b = match q.to_bound() {
                Ok(b) => b,
                Err(e) => return Err(e),
            };
            match b.to_zoned() {
                Ok(z) => Ok(FnArg::Zoned(z)),
                Err(e) => Err(e),
            }
        },
        ExtDataType::Geom => match q.to_geom() {
            Ok(g) => Ok(FnArg::Geom(g)),
            Err(e) => Err(e),
        },
    }
}

/// Turn the evaluated parameters of a call into the arguments of the
/// function, each converted to its declared type. The call must pass as
/// many parameters as the function declares (see [check_arity]). The first
/// parameter that does not fit its type makes the error.
pub fn fn_args(params: &Vec<Q>, info: &FnInfo) -> (r: Result<Vec<FnArg>, MyError>)
    requires
        params.len() == info.args_spec().len(),
    ensures
        r is Ok <==> forall|i: int|
            0 <= i < params.len() ==> arg_fits(#[trigger] params[i], info.args_spec()[i]),
        r matches Ok(v) ==> args_of(v@, params@) && args_fit(v@, info.args_spec()),
        r matches Err(e) ==> e is Runtime,
{
    let mut out: Vec<FnArg> = Vec::new();
    let mut i: usize = 0;
    while i < params.len()
        invariant
            i <= params.len(),
            params.len() == info.args_spec().len(),
            out.len() == i,
            forall|k: int| 0 <= k < i ==> arg_fits(#[trigger] params[k], info.args_spec()[k]),
            forall|k: int| 0 <= k < i ==> arg_of(#[trigger] out[k], params[k]),
            forall|k: int| 0 <= k < i ==> fn_arg_fits(#[trigger] out[k], info.args_spec()[k]),
        decreases params.len() - i,
    {
        match fn_arg(&params[i], info.arg_types[i]) {
            Ok(a) => out.push(a),
            Err(e) => return Err(e),
        }
        i = i + 1;
    }
    Ok(out)
}

/// Whether a result is of the declared result type.
pub open spec fn result_fits(x: FnResult, t: ExtDataType) -> bool {
    match t {
        ExtDataType::Str => x is Str,
        ExtDataType::Num => x is Num,
        ExtDataType::Bool => x is Bool,
        ExtDataType::Timestamp | ExtDataType::Date => x is Zoned,
        ExtDataType::Geom => x is Geom,
    }
}

/// Turn what a function handed back into a queryable: nothing becomes
/// `Null`; a string a plain string, a number a number, a boolean a
/// boolean, an instant a timestamp or a date as the result type says, and
/// a geometry a geometry. The result must be of the declared type.
pub fn fn_result(result: Option<FnResult>, info: &FnInfo) -> (r: Q)
    requires
        result matches Some(x) ==> result_fits(x, info.result_spec()),
    ensures
        result is None ==> r is Null,
        result matches Some(FnResult::Str(s)) ==> (r matches Q::Str(t) && t.text() == s@
            && t.flag_bits() == 0),
        result matches Some(FnResult::Num(n)) ==> r == Q::Num(n),
        result matches Some(FnResult::Bool(b)) ==> r == Q::Bool(b),
        result matches Some(FnResult::Zoned(z)) ==> (info.result_spec() is Timestamp ==> r
            == Q::Instant(Bound::Timestamp(z))),
        result matches Some(FnResult::Zoned(z)) ==> (info.result_spec() is Date ==> r
            == Q::Instant(Bound::Date(z))),
        result matches Some(FnResult::Geom(g)) ==> r == Q::Geom(g),
{
    match result {
        None => Q::Null,
        Some(FnResult::Str(s)) => Q::Str(QString::plain(s.as_str())),
        Some(FnResult::Num(n)) => Q::Num(n),
        Some(FnResult::Bool(b)) => Q::Bool(b),
        Some(FnResult::Zoned(z)) => {
            if info.result_type == ExtDataType::Timestamp {
                Q::Instant(Bound::Timestamp(z))
            } else {
                Q::Instant(Bound::Date(z))
            }
        },
        Some(FnResult::Geom(g)) => Q::Geom(g),
    }
}


/// The text of the string argument at position `i`, if there is one.
pub open spec fn str_arg(args: Seq<FnArg>, i: int) -> Option<Seq<char>> {
    if 0 <= i < args.len() {
        match args[i] {
            FnArg::Str(s) => Some(s.text()),
            _ => None,
        }
    } else {
        None
    }
}

fn str_at(args: &Vec<FnArg>, i: usize) -> (r: Option<&str>)
    ensures
        match r {
            Some(s) => str_arg(args@, i as int) == Some(s@),
            None => str_arg(args@, i as int) is None,
        },
{
    if i < args.len() {
        match &args[i] {
            FnArg::Str(s) => Some(s.as_str()),
            _ => None,
        }
    } else {
        None
    }
}

/// The builtin `trim(s)`: `s` without its leading and trailing white space.
pub fn trim_fn(args: &Vec<FnArg>) -> (r: Option<FnResult>)
    ensures
        match str_arg(args@, 0) {
            Some(x) => r matches Some(FnResult::Str(t)) && t@ == crate::unicode::trimmed(x),
            None => r is None,
        },
{
    match str_at(args, 0) {
        Some(x) => Some(FnResult::Str(crate::unicode::trim(x))),
        None => None,
    }
}

/// The builtin `concat(a, b)`: `a` followed by `b`.
pub fn concat_fn(args: &Vec<FnArg>) -> (r: Option<FnResult>)
    ensures
        match (str_arg(args@, 0), str_arg(args@, 1)) {
            (Some(x), Some(y)) => r matches Some(FnResult::Str(t)) && t@ == x + y,
            _ => r is None,
        },
{
    match (str_at(args, 0), str_at(args, 1)) {
        (Some(x), Some(y)) => {
            let mut t = x.to_string();
            t.append(y);
            Some(FnResult::Str(t))
        },
        _ => None,
    }
}

/// Whether `p` is a prefix of `s`.
pub open spec fn is_prefix(p: Seq<char>, s: Seq<char>) -> bool {
    p.len() <= s.len() && s.subrange(0, p.len() as int) == p
}

/// Whether `p` is a suffix of `s`.
pub open spec fn is_suffix(p: Seq<char>, s: Seq<char>) -> bool {
    p.len() <= s.len() && s.subrange(s.len() - p.len(), s.len() as int) == p
}

fn affix(s: &str, p: &str, at_end: bool) -> (r: bool)
    ensures
        at_end ==> r == is_suffix(p@, s@),
        !at_end ==> r == is_prefix(p@, s@),
{
    let v = crate::unicode::chars_of(s);
    let w = crate::unicode::chars_of(p);
    if w.len() > v.len() {
        return false;
    }
    let off: usize = if at_end { v.len() - w.len() } else { 0 };
    let mut i: usize = 0;
    while i < w.len()
        invariant
            i <= w.len(),
            w.len() <= v.len(),
            off + w.len() <= v.len(),
            at_end ==> off == v.len() - w.len(),
            !at_end ==> off == 0,
            v@ == s@,
            w@ == p@,
            forall|k: int| 0 <= k < i ==> v@[off + k] == w@[k],
        decreases w.len() - i,
    {
        if v[off + i] != w[i] {
            proof {
                let sub = v@.subrange(off as int, off + w.len());
                assert(sub[i as int] != w@[i as int]);
            }
            return false;
        }
        i = i + 1;
    }
    proof {
        assert(v@.subrange(off as int, off + w.len()) =~= w@);
    }
    true
}

/// The builtin `starts_with(s, p)`: whether `s` starts with `p`.
pub fn starts_with_fn(args: &Vec<FnArg>) -> (r: Option<FnResult>)
    ensures
        match (str_arg(args@, 0), str_arg(args@, 1)) {
            (Some(x), Some(y)) => r == Some(FnResult::Bool(is_prefix(y, x))),
            _ => r is None,
        },
{
    match (str_at(args, 0), str_at(args, 1)) {
        (Some(x), Some(y)) => Some(FnResult::Bool(affix(x, y, false))),
        _ => None,
    }
}

/// The builtin `ends_with(s, p)`: whether `s` ends with `p`.
pub fn ends_with_fn(args: &Vec<FnArg>) -> (r: Option<FnResult>)
    ensures
        match (str_arg(args@, 0), str_arg(args@, 1)) {
            (Some(x), Some(y)) => r == Some(FnResult::Bool(is_suffix(y, x))),
            _ => r is None,
        },
{
    match (str_at(args, 0), str_at(args, 1)) {
        (Some(x), Some(y)) => Some(FnResult::Bool(affix(x, y, true))),
        _ => None,
    }
}

} // verus!
