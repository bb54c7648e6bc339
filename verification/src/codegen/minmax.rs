//! `#[minmax]`: bounds on integer parameters. For each annotated parameter
//! a check function is generated, and the annotated function calls the
//! checks on its arguments, in parameter order, before anything else; a
//! check panics with its message when the argument is out of bounds.
use vstd::prelude::*;
use crate::text::{
    chars_of, digits_i128, parse_digits_i128, push_str, same_chars, signed_decimal, signed_decimal_string,
};

verus! {

/// The value given to `min` or `max`.
#[derive(Debug, Clone, PartialEq, Eq)]
pub enum BoundExpr {
    /// An integer literal, by its value's decimal digits.
    Int(String),
    /// `-` before an integer literal, by the literal's decimal digits.
    Neg(String),
    /// Any other expression.
    Other,
}

/// One item of a `#[minmax(...)]` argument list.
#[derive(Debug, Clone, PartialEq, Eq)]
pub enum MinMaxMeta {
    /// `min = <value>`.
    Min(BoundExpr),
    /// `max = <value>`.
    Max(BoundExpr),
    /// Anything else.
    Other,
}

/// The bounds a `#[minmax(...)]` attribute sets.
#[derive(Debug, Clone, Copy, PartialEq, Eq, Structural)]
pub struct MinMaxConfig {
    pub min: Option<i128>,
    pub max: Option<i128>,
}

/// The value of a bound: an integer literal, possibly negated, that fits an
/// `i128`.
pub open spec fn bound_value(e: BoundExpr) -> Result<i128, Seq<char>> {
    match e {
        BoundExpr::Int(d) => match digits_i128(d@) {
            Some(v) => Ok(v),
            None => Err("invalid integer literal"@),
        },
        BoundExpr::Neg(d) => match digits_i128(d@) {
            Some(v) => Ok((-v) as i128),
            None => Err("invalid integer literal"@),
        },
        BoundExpr::Other => Err("expected integer literal"@),
    }
}

/// Reads the bounds of `metas` in order, starting from `min` and `max`.
pub open spec fn read_bounds(metas: Seq<MinMaxMeta>, min: Option<i128>, max: Option<i128>) -> Result<
    (Option<i128>, Option<i128>),
    Seq<char>,
>
    decreases metas.len(),
{
    if metas.len() == 0 {
        Ok((min, max))
    } else {
        match metas[0] {
            MinMaxMeta::Min(e) => if min is Some {
                Err("duplicate `min` attribute"@)
            } else {
                match bound_value(e) {
                    Ok(v) => read_bounds(metas.drop_first(), Some(v), max),
                    Err(m) => Err(m),
                }
            },
            MinMaxMeta::Max(e) => if max is Some {
                Err("duplicate `max` attribute"@)
            } else {
                match bound_value(e) {
                    Ok(v) => read_bounds(metas.drop_first(), min, Some(v)),
                    Err(m) => Err(m),
                }
            },
            MinMaxMeta::Other => Err("expected `min = <value>` or `max = <value>`"@),
        }
    }
}

/// The bounds an argument list sets: each of `min` and `max` at most once,
/// at least one of them, and `min` not above `max`.
pub open spec fn minmax_config_spec(metas: Seq<MinMaxMeta>) -> Result<MinMaxConfig, Seq<char>> {
    match read_bounds(metas, None, None) {
        Err(m) => Err(m),
        Ok((min, max)) => if min is None && max is None {
            Err("at least one of `min` or `max` must be specified"@)
        } else if min is Some && max is Some && min->0 > max->0 {
            Err("min ("@ + signed_decimal(min->0 as int) + ") cannot be greater than max ("@ + signed_decimal(
                max->0 as int,
            ) + ")"@)
        } else {
            Ok(MinMaxConfig { min, max })
        },
    }
}

fn read_bound(e: &BoundExpr) -> (r: Result<i128, String>)
    ensures
        match bound_value(*e) {
            Ok(v) => r == Ok::<i128, String>(v),
            Err(m) => r matches Err(x) && x@ == m,
        },
{
    match e {
        BoundExpr::Int(d) => match parse_digits_i128(d.as_str()) {
            Some(v) => Ok(v),
            None => Err(String::from_str("invalid integer literal")),
        },
        BoundExpr::Neg(d) => match parse_digits_i128(d.as_str()) {
            Some(v) => Ok(-v),
            None => Err(String::from_str("invalid integer literal")),
        },
        BoundExpr::Other => Err(String::from_str("expected integer literal")),
    }
}

impl MinMaxConfig {
    /// Reads a `#[minmax(...)]` argument list.
    pub fn parse(metas: &Vec<MinMaxMeta>) -> (r: Result<MinMaxConfig, String>)
        ensures
            match minmax_config_spec(metas@) {
                Ok(c) => r == Ok::<MinMaxConfig, String>(c),
                Err(m) => r matches Err(x) && x@ == m,
            },
    {
        let mut min: Option<i128> = None;
        let mut max: Option<i128> = None;
        let mut i: usize = 0;
        assert(metas@.skip(0) =~= metas@);
        while i < metas.len()
            invariant
                i <= metas@.len(),
                read_bounds(metas@, None, None) == read_bounds(metas@.skip(i as int), min, max),
            decreases metas@.len() - i,
        {
            let ghost rest = metas@.skip(i as int);
            assert(rest.drop_first() =~= metas@.skip(i + 1));
            assert(rest[0] == metas@[i as int]);
            match &metas[i] {
                MinMaxMeta::Min(e) => {
                    if min.is_some() {
                        return Err(String::from_str("duplicate `min` attribute"));
                    }
                    match read_bound(e) {
                        Ok(v) => {
                            min = Some(v);
                        },
                        Err(m) => {
                            return Err(m);
                        },
                    }
                },
                MinMaxMeta::Max(e) => {
                    if max.is_some() {
                        return Err(String::from_str("duplicate `max` attribute"));
                    }
                    match read_bound(e) {
                        Ok(v) => {
                            max = Some(v);
                        },
                        Err(m) => {
                            return Err(m);
                        },
                    }
                },
                MinMaxMeta::Other => {
                    return Err(String::from_str("expected `min = <value>` or `max = <value>`"));
                },
            }
            i = i + 1;
        }
        assert(metas@.skip(i as int) =~= Seq::<MinMaxMeta>::empty());
        if min.is_none() && max.is_none() {
            return Err(String::from_str("at least one of `min` or `max` must be specified"));
        }
        if let (Some(a), Some(b)) = (min, max) {
            if a > b {
                let mut m = String::from_str("min (");
                let sa = signed_decimal_string(a);
                push_str(&mut m, sa.as_str());
                push_str(&mut m, ") cannot be greater than max (");
                let sb = signed_decimal_string(b);
                push_str(&mut m, sb.as_str());
                push_str(&mut m, ")");
                return Err(m);
            }
        }
        Ok(MinMaxConfig { min, max })
    }
}

/// The integer types `#[minmax]` accepts, by name.
pub open spec fn is_integer_declared_type(t: Seq<char>) -> bool {
    t == "i8"@ || t == "i16"@ || t == "i32"@ || t == "i64"@ || t == "i128"@ || t == "isize"@ || t == "u8"@
        || t == "u16"@ || t == "u32"@ || t == "u64"@ || t == "u128"@ || t == "usize"@
}

/// Whether a type written as the single identifier `t` is an integer type.
pub fn is_integer_type(t: &str) -> (r: bool)
    ensures
        r == is_integer_declared_type(t@),
{
    let cs = chars_of(t);
    same_chars(&cs, &chars_of("i8")) || same_chars(&cs, &chars_of("i16")) || same_chars(&cs, &chars_of("i32"))
        || same_chars(&cs, &chars_of("i64")) || same_chars(&cs, &chars_of("i128")) || same_chars(
        &cs,
        &chars_of("isize"),
    ) || same_chars(&cs, &chars_of("u8")) || same_chars(&cs, &chars_of("u16")) || same_chars(
        &cs,
        &chars_of("u32"),
    ) || same_chars(&cs, &chars_of("u64")) || same_chars(&cs, &chars_of("u128")) || same_chars(
        &cs,
        &chars_of("usize"),
    )
}

/// A parameter that carries `#[minmax(...)]`.
#[derive(Debug, Clone)]
pub struct MinMaxParam {
    /// Its position among the function's inputs.
    pub position: usize,
    /// Its name, when its pattern is a plain identifier.
    pub name: Option<String>,
    /// Its type, when written as a single identifier.
    pub declared_type: Option<String>,
    /// The arguments of its (last) `#[minmax(...)]` attribute.
    pub metas: Vec<MinMaxMeta>,
}

/// The check generated for one parameter, and its call.
#[derive(Debug, Clone)]
pub struct BoundCheck {
    /// `__minmax_check_<function>_<position>`.
    pub check_name: String,
    pub param: String,
    pub min: Option<i128>,
    pub max: Option<i128>,
    /// The panic message for an argument out of bounds.
    pub message: String,
    /// The statement `<check_name>(<param>);` the annotated function
    /// begins with.
    pub call: String,
}

/// Whether the value `v` (the argument taken as an `i128`) lies outside
/// the bounds: below `min` or above `max`.
pub open spec fn out_of_bounds(min: Option<i128>, max: Option<i128>, v: int) -> bool {
    (min matches Some(a) && v < a) || (max matches Some(b) && v > b)
}

/// The statement that calls the check `check_name` on parameter `param`.
pub open spec fn check_call(check_name: Seq<char>, param: Seq<char>) -> Seq<char> {
    check_name + "("@ + param + ");"@
}

impl BoundCheck {
    /// What the check does when called on `arg` (the argument taken as an
    /// `i128`): the message it panics with when `arg` is out of bounds,
    /// `None` when it returns normally.
    pub fn violation(&self, arg: i128) -> (r: Option<String>)
        ensures
            match r {
                Some(m) => out_of_bounds(self.min, self.max, arg as int) && m@ == self.message@,
                None => !out_of_bounds(self.min, self.max, arg as int),
            },
    {
        let low = match self.min {
            Some(a) => arg < a,
            None => false,
        };
        let high = match self.max {
            Some(b) => arg > b,
            None => false,
        };
        if low || high {
            Some(self.message.clone())
        } else {
            None
        }
    }
}

/// What a call of the annotated function does with the arguments `args`,
/// `args[k]` being the argument of the parameter that `checks[k]` guards:
/// the checks run in order before the body, so the call panics with the
/// message of the first check whose argument is out of bounds, and the body
/// runs (`None`) when every argument is within its bounds.
pub fn first_violation(checks: &Vec<BoundCheck>, args: &Vec<i128>) -> (r: Option<String>)
    requires
        checks@.len() == args@.len(),
    ensures
        match r {
            None => forall|k: int|
                0 <= k < checks@.len() ==> !out_of_bounds(
                    #[trigger] checks@[k].min,
                    checks@[k].max,
                    args@[k] as int,
                ),
            Some(m) => exists|k: int|
                0 <= k < checks@.len() && out_of_bounds(#[trigger] checks@[k].min, checks@[k].max, args@[k] as int)
                    && m@ == checks@[k].message@ && forall|j: int|
                    0 <= j < k ==> !out_of_bounds(#[trigger] checks@[j].min, checks@[j].max, args@[j] as int),
        },
{
    let mut k: usize = 0;
    while k < checks.len()
        invariant
            checks@.len() == args@.len(),
            k <= checks@.len(),
            forall|j: int| 0 <= j < k ==> !out_of_bounds(#[trigger] checks@[j].min, checks@[j].max, args@[j] as int),
        decreases checks@.len() - k,
    {
        match checks[k].violation(args[k]) {
            Some(m) => {
                return Some(m);
            },
            None => {},
        }
        k = k + 1;
    }
    None
}

/// The panic message for a parameter out of its bounds.
pub open spec fn bound_message(param: Seq<char>, min: Option<i128>, max: Option<i128>) -> Seq<char> {
    match (min, max) {
        (Some(a), Some(b)) => "parameter `"@ + param + "` must be between "@ + signed_decimal(a as int) + " and "@
            + signed_decimal(b as int),
        (Some(a), None) => "parameter `"@ + param + "` must be at least "@ + signed_decimal(a as int),
        (None, Some(b)) => "parameter `"@ + param + "` must be at most "@ + signed_decimal(b as int),
        (None, None) => Seq::empty(),
    }
}

/// The check for one parameter of function `f`, as (check name, parameter,
/// min, max, message), or why the parameter is refused.
pub open spec fn param_check(f: Seq<char>, p: MinMaxParam) -> Result<
    (Seq<char>, Seq<char>, Option<i128>, Option<i128>, Seq<char>),
    Seq<char>,
> {
    match minmax_config_spec(p.metas@) {
        Err(m) => Err(m),
        Ok(c) => match p.name {
            None => Err("minmax requires a simple identifier pattern"@),
            Some(n) => if !(p.declared_type matches Some(t) && is_integer_declared_type(t@)) {
                Err(
                    "minmax can only be applied to integer types (i8, i16, i32, i64, i128, isize, u8, u16, u32, u64, u128, usize)"@,
                )
            } else {
                Ok(
                    (
                        "__minmax_check_"@ + f + "_"@ + crate::text::decimal(p.position as nat),
                        n@,
                        c.min,
                        c.max,
                        bound_message(n@, c.min, c.max),
                    ),
                )
            },
        },
    }
}

/// The checks for all annotated parameters, in order, or the first refusal.
pub open spec fn minmax_plan(f: Seq<char>, params: Seq<MinMaxParam>) -> Result<
    Seq<(Seq<char>, Seq<char>, Option<i128>, Option<i128>, Seq<char>)>,
    Seq<char>,
>
    decreases params.len(),
{
    if params.len() == 0 {
        Ok(Seq::empty())
    } else {
        match param_check(f, params[0]) {
            Err(m) => Err(m),
            Ok(c) => match minmax_plan(f, params.drop_first()) {
                Ok(cs) => Ok(seq![c] + cs),
                Err(m) => Err(m),
            },
        }
    }
}

fn check_for(f: &str, p: &MinMaxParam) -> (r: Result<BoundCheck, String>)
    ensures
        match param_check(f@, *p) {
            Err(m) => r matches Err(x) && x@ == m,
            Ok((cn, pn, mn, mx, msg)) => r matches Ok(c) && c.check_name@ == cn && c.param@ == pn && c.min == mn
                && c.max == mx && c.message@ == msg && c.call@ == check_call(cn, pn),
        },
{
    let config = match MinMaxConfig::parse(&p.metas) {
        Ok(c) => c,
        Err(m) => {
            return Err(m);
        },
    };
    let name = match &p.name {
        Some(n) => n,
        None => {
            return Err(String::from_str("minmax requires a simple identifier pattern"));
        },
    };
    let integer = match &p.declared_type {
        Some(t) => is_integer_type(t.as_str()),
        None => false,
    };
    if !integer {
        return Err(
            String::from_str(
                "minmax can only be applied to integer types (i8, i16, i32, i64, i128, isize, u8, u16, u32, u64, u128, usize)",
            ),
        );
    }
    let mut check_name = String::from_str("__minmax_check_");
    push_str(&mut check_name, f);
    push_str(&mut check_name, "_");
    let pos = crate::text::decimal_string(p.position as u64);
    push_str(&mut check_name, pos.as_str());
    let mut message = String::from_str("parameter `");
    push_str(&mut message, name.as_str());
    match (config.min, config.max) {
        (Some(a), Some(b)) => {
            push_str(&mut message, "` must be between ");
            let sa = signed_decimal_string(a);
            push_str(&mut message, sa.as_str());
            push_str(&mut message, " and ");
            let sb = signed_decimal_string(b);
            push_str(&mut message, sb.as_str());
        },
        (Some(a), None) => {
            push_str(&mut message, "` must be at least ");
            let sa = signed_decimal_string(a);
            push_str(&mut message, sa.as_str());
        },
        (None, Some(b)) => {
            push_str(&mut message, "` must be at most ");
            let sb = signed_decimal_string(b);
            push_str(&mut message, sb.as_str());
        },
        (None, None) => {
            return Err(String::from_str("at least one of `min` or `max` must be specified"));
        },
    }
    let mut call = check_name.clone();
    push_str(&mut call, "(");
    push_str(&mut call, name.as_str());
    push_str(&mut call, ");");
    Ok(BoundCheck { check_name, param: name.clone(), min: config.min, max: config.max, message, call })
}

/// The checks `#[minmax]` generates for function `f`, one per annotated
/// parameter in order, or the message of the first parameter it refuses:
/// malformed bounds, a pattern that is not a plain name, or a type that
/// is not one of the integer types. The generated function begins with the
/// `call` of each check, in this order (see `first_violation`).
pub fn plan_minmax(f: &str, params: &Vec<MinMaxParam>) -> (r: Result<Vec<BoundCheck>, String>)
    ensures
        match minmax_plan(f@, params@) {
            Err(m) => r matches Err(x) && x@ == m,
            Ok(cs) => r matches Ok(v) && v@.map_values(
                |c: BoundCheck| (c.check_name@, c.param@, c.min, c.max, c.message@),
            ) == cs && forall|k: int|
                0 <= k < v@.len() ==> (#[trigger] v@[k]).call@ == check_call(v@[k].check_name@, v@[k].param@),
        },
{
    let mut out: Vec<BoundCheck> = Vec::new();
    let mut i: usize = 0;
    assert(params@.skip(0) =~= params@);
    while i < params.len()
        invariant
            i <= params@.len(),
            match minmax_plan(f@, params@) {
                Err(m) => minmax_plan(f@, params@.skip(i as int)) == Err::<
                    Seq<(Seq<char>, Seq<char>, Option<i128>, Option<i128>, Seq<char>)>,
                    Seq<char>,
                >(m),
                Ok(cs) => minmax_plan(f@, params@.skip(i as int)) matches Ok(rest) && cs == out@.map_values(
                    |c: BoundCheck| (c.check_name@, c.param@, c.min, c.max, c.message@),
                ) + rest,
            },
            forall|k: int|
                0 <= k < out@.len() ==> (#[trigger] out@[k]).call@ == check_call(out@[k].check_name@, out@[k].param@),
        decreases params@.len() - i,
    {
        let ghost rest = params@.skip(i as int);
        assert(rest.drop_first() =~= params@.skip(i + 1));
        assert(rest[0] == params@[i as int]);
        match check_for(f, &params[i]) {
            Err(m) => {
                return Err(m);
            },
            Ok(c) => {
                let ghost before = out@.map_values(|c: BoundCheck| (c.check_name@, c.param@, c.min, c.max, c.message@));
                out.push(c);
                assert(out@.map_values(|c: BoundCheck| (c.check_name@, c.param@, c.min, c.max, c.message@))
                    =~= before.push((c.check_name@, c.param@, c.min, c.max, c.message@)));
            },
        }
        i = i + 1;
    }
    assert(params@.skip(i as int) =~= Seq::<MinMaxParam>::empty());
    assert(out@.map_values(|c: BoundCheck| (c.check_name@, c.param@, c.min, c.max, c.message@)) + Seq::<
        (Seq<char>, Seq<char>, Option<i128>, Option<i128>, Seq<char>),
    >::empty() =~= out@.map_values(|c: BoundCheck| (c.check_name@, c.param@, c.min, c.max, c.message@)));
    Ok(out)
}

} // verus!
