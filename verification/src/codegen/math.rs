//! `#[math]`: arithmetic on integers rewritten into checked, saturating or
//! wrapping method calls.
use vstd::prelude::*;
use crate::codegen::AttrArgs;
use crate::text::{chars_of, push_str, same_chars};

verus! {

/// What happens on overflow in a `#[math]` function.
#[derive(Debug, Clone, Copy, PartialEq, Eq, Structural)]
pub enum OverflowMode {
    /// Overflow panics with a message naming the operands.
    Checked,
    /// Results stop at the type's bounds.
    Saturating,
    /// Results wrap around.
    Wrapping,
}

/// The mode `#[math]` with these arguments asks for: `checked` when there
/// are none; otherwise the one identifier must be `checked`, `saturating`
/// or `wrapping`.
pub open spec fn overflow_mode_spec(args: AttrArgs) -> Result<OverflowMode, Seq<char>> {
    match args {
        AttrArgs::Empty => Ok(OverflowMode::Checked),
        AttrArgs::Ident(x) => if x@ == "checked"@ {
            Ok(OverflowMode::Checked)
        } else if x@ == "saturating"@ {
            Ok(OverflowMode::Saturating)
        } else if x@ == "wrapping"@ {
            Ok(OverflowMode::Wrapping)
        } else {
            Err("expected `checked`, `saturating`, or `wrapping`"@)
        },
        AttrArgs::Unreadable(m) => Err(m@),
    }
}

impl OverflowMode {
    /// Reads the arguments of `#[math]`.
    pub fn parse(args: &AttrArgs) -> (r: Result<OverflowMode, String>)
        ensures
            match overflow_mode_spec(*args) {
                Ok(m) => r == Ok::<OverflowMode, String>(m),
                Err(m) => r matches Err(e) && e@ == m,
            },
    {
        match args {
            AttrArgs::Empty => Ok(OverflowMode::Checked),
            AttrArgs::Ident(x) => {
                proof {
                    reveal_strlit("checked");
                    reveal_strlit("saturating");
                    reveal_strlit("wrapping");
                }
                let cs = chars_of(x.as_str());
                if same_chars(&cs, &chars_of("checked")) {
                    Ok(OverflowMode::Checked)
                } else if same_chars(&cs, &chars_of("saturating")) {
                    Ok(OverflowMode::Saturating)
                } else if same_chars(&cs, &chars_of("wrapping")) {
                    Ok(OverflowMode::Wrapping)
                } else {
                    Err(String::from_str("expected `checked`, `saturating`, or `wrapping`"))
                }
            },
            AttrArgs::Unreadable(m) => Err(m.clone()),
        }
    }
}

/// A binary operator of an expression.
#[derive(Debug, Clone, Copy, PartialEq, Eq, Structural)]
pub enum BinaryOp {
    Add,
    Sub,
    Mul,
    Div,
    Rem,
    AddAssign,
    SubAssign,
    MulAssign,
    DivAssign,
    RemAssign,
    /// Any operator that is not arithmetic.
    Other,
}

/// How an arithmetic expression `left op right` is rewritten: into
/// `left.<method>(right)`, assigned back to `left` for a compound
/// assignment; in checked mode the call is followed by an `expect` whose
/// message shows the operands around `op_symbol`.
#[derive(Debug, Clone)]
pub struct MathRewrite {
    pub method: String,
    pub op_symbol: String,
    pub compound: bool,
    pub checked: bool,
}

/// The base name and symbol of an arithmetic operator.
pub open spec fn op_parts(op: BinaryOp) -> Option<(Seq<char>, Seq<char>)> {
    match op {
        BinaryOp::Add | BinaryOp::AddAssign => Some(("add"@, "+"@)),
        BinaryOp::Sub | BinaryOp::SubAssign => Some(("sub"@, "-"@)),
        BinaryOp::Mul | BinaryOp::MulAssign => Some(("mul"@, "*"@)),
        BinaryOp::Div | BinaryOp::DivAssign => Some(("div"@, "/"@)),
        BinaryOp::Rem | BinaryOp::RemAssign => Some(("rem"@, "%"@)),
        BinaryOp::Other => None,
    }
}

/// The operator assigns its result back to its left operand.
pub open spec fn is_compound(op: BinaryOp) -> bool {
    op == BinaryOp::AddAssign || op == BinaryOp::SubAssign || op == BinaryOp::MulAssign || op
        == BinaryOp::DivAssign || op == BinaryOp::RemAssign
}

/// Prefix of the replacement method for a mode.
pub open spec fn mode_prefix(mode: OverflowMode) -> Seq<char> {
    match mode {
        OverflowMode::Checked => "checked_"@,
        OverflowMode::Saturating => "saturating_"@,
        OverflowMode::Wrapping => "wrapping_"@,
    }
}

/// The rewrite of `left op right` in `mode`, as (method, symbol, compound,
/// checked): none when an operand is a float literal, when the operator
/// is not arithmetic, or for a remainder in saturating mode (integers have
/// no saturating remainder).
pub open spec fn rewrite_spec(mode: OverflowMode, op: BinaryOp, left_float: bool, right_float: bool) -> Option<
    (Seq<char>, Seq<char>, bool, bool),
> {
    if left_float || right_float {
        None
    } else {
        match op_parts(op) {
            None => None,
            Some((base, symbol)) => if mode == OverflowMode::Saturating && base == "rem"@ {
                None
            } else {
                Some((mode_prefix(mode) + base, symbol, is_compound(op), mode == OverflowMode::Checked))
            },
        }
    }
}

/// `plain` is an arithmetic operator and `assign` its compound-assignment
/// form (`+` and `+=`, `-` and `-=`, `*` and `*=`, `/` and `/=`, `%` and
/// `%=`).
pub open spec fn assignment_form_of(plain: BinaryOp, assign: BinaryOp) -> bool {
    ||| plain == BinaryOp::Add && assign == BinaryOp::AddAssign
    ||| plain == BinaryOp::Sub && assign == BinaryOp::SubAssign
    ||| plain == BinaryOp::Mul && assign == BinaryOp::MulAssign
    ||| plain == BinaryOp::Div && assign == BinaryOp::DivAssign
    ||| plain == BinaryOp::Rem && assign == BinaryOp::RemAssign
}

/// The compound-assignment operators are exactly the assignment forms of
/// the plain arithmetic operators.
proof fn lemma_compound_iff_assignment_form(op: BinaryOp)
    ensures
        is_compound(op) <==> exists|p: BinaryOp| assignment_form_of(p, op),
{
    if op == BinaryOp::AddAssign {
        assert(assignment_form_of(BinaryOp::Add, op));
    } else if op == BinaryOp::SubAssign {
        assert(assignment_form_of(BinaryOp::Sub, op));
    } else if op == BinaryOp::MulAssign {
        assert(assignment_form_of(BinaryOp::Mul, op));
    } else if op == BinaryOp::DivAssign {
        assert(assignment_form_of(BinaryOp::Div, op));
    } else if op == BinaryOp::RemAssign {
        assert(assignment_form_of(BinaryOp::Rem, op));
    }
}

/// A compound assignment `x op= y` is rewritten exactly when `x op y` is,
/// with the same method, symbol and checking; the compound one assigns its
/// result back to `x` (`x = x.method(y)`), the plain one does not. No
/// other operator is rewritten at all.
pub proof fn lemma_compound_assigns_back(
    mode: OverflowMode,
    plain: BinaryOp,
    assign: BinaryOp,
    left_float: bool,
    right_float: bool,
)
    requires
        assignment_form_of(plain, assign),
    ensures
        rewrite_spec(mode, plain, left_float, right_float) is Some <==> rewrite_spec(
            mode,
            assign,
            left_float,
            right_float,
        ) is Some,
        rewrite_spec(mode, plain, left_float, right_float) matches Some((m1, s1, c1, k1)) ==> rewrite_spec(
            mode,
            assign,
            left_float,
            right_float,
        ) matches Some((m2, s2, c2, k2)) && m1 == m2 && s1 == s2 && k1 == k2 && !c1 && c2,
        rewrite_spec(mode, BinaryOp::Other, left_float, right_float) is None,
{
}

/// The rewrite of one binary expression, given whether each operand is a
/// float literal.
pub fn rewrite_binary(mode: OverflowMode, op: BinaryOp, left_float: bool, right_float: bool) -> (r: Option<
    MathRewrite,
>)
    ensures
        match rewrite_spec(mode, op, left_float, right_float) {
            Some((method, symbol, compound, checked)) => r matches Some(w) && w.method@ == method && w.op_symbol@
                == symbol && w.compound == compound && w.checked == checked,
            None => r is None,
        },
        r matches Some(w) ==> (w.compound <==> exists|p: BinaryOp| assignment_form_of(p, op)),
{
    proof {
        lemma_compound_iff_assignment_form(op);
    }
    if left_float || right_float {
        return None;
    }
    let (base, symbol): (&str, &str) = match op {
        BinaryOp::Add | BinaryOp::AddAssign => ("add", "+"),
        BinaryOp::Sub | BinaryOp::SubAssign => ("sub", "-"),
        BinaryOp::Mul | BinaryOp::MulAssign => ("mul", "*"),
        BinaryOp::Div | BinaryOp::DivAssign => ("div", "/"),
        BinaryOp::Rem | BinaryOp::RemAssign => ("rem", "%"),
        BinaryOp::Other => {
            return None;
        },
    };
    let is_rem = match op {
        BinaryOp::Rem | BinaryOp::RemAssign => true,
        _ => false,
    };
    proof {
        reveal_strlit("rem");
        reveal_strlit("add");
        reveal_strlit("sub");
        reveal_strlit("mul");
        reveal_strlit("div");
        assert("add"@[0] != "rem"@[0]);
        assert("sub"@[0] != "rem"@[0]);
        assert("mul"@[0] != "rem"@[0]);
        assert("div"@[0] != "rem"@[0]);
    }
    let compound = match op {
        BinaryOp::AddAssign | BinaryOp::SubAssign | BinaryOp::MulAssign | BinaryOp::DivAssign
        | BinaryOp::RemAssign => true,
        _ => false,
    };
    let mut method = match mode {
        OverflowMode::Checked => String::from_str("checked_"),
        OverflowMode::Saturating => {
            if is_rem {
                return None;
            }
            String::from_str("saturating_")
        },
        OverflowMode::Wrapping => String::from_str("wrapping_"),
    };
    push_str(&mut method, base);
    let checked = match mode {
        OverflowMode::Checked => true,
        _ => false,
    };
    Some(MathRewrite { method, op_symbol: String::from_str(symbol), compound, checked })
}

} // verus!
