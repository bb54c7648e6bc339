//! `#[extends(Target)]`: moves the annotated function, unchanged, into an
//! inherent `impl` block of `Target`, so that it becomes a method (with a
//! `self` receiver) or an associated function (without one).
use vstd::prelude::*;
use crate::codegen::AttrArgs;
use crate::text::push_str;

verus! {

/// The type an `#[extends(...)]` argument list names: exactly one
/// identifier.
pub open spec fn extends_target(args: AttrArgs) -> Result<Seq<char>, Seq<char>> {
    match args {
        AttrArgs::Ident(t) => Ok(t@),
        AttrArgs::Empty => Err("unexpected end of input, expected identifier"@),
        AttrArgs::Unreadable(m) => Err(m@),
    }
}

/// The type `#[extends(...)]` adds the function to.
#[derive(Debug, Clone, PartialEq, Eq)]
pub struct ExtendsConfig {
    pub target: String,
}

impl ExtendsConfig {
    /// Reads an `#[extends(...)]` argument list.
    pub fn parse(args: &AttrArgs) -> (r: Result<ExtendsConfig, String>)
        ensures
            match extends_target(*args) {
                Ok(t) => r matches Ok(c) && c.target@ == t,
                Err(m) => r matches Err(x) && x@ == m,
            },
    {
        match args {
            AttrArgs::Ident(t) => Ok(ExtendsConfig { target: t.clone() }),
            AttrArgs::Empty => Err(String::from_str("unexpected end of input, expected identifier")),
            AttrArgs::Unreadable(m) => Err(m.clone()),
        }
    }
}

/// The item `#[extends(target)]` turns the function `function` (its full
/// text: attributes, visibility, signature and body) into.
pub open spec fn extended_item(target: Seq<char>, function: Seq<char>) -> Seq<char> {
    "impl "@ + target + " {\n"@ + function + "\n}"@
}

/// The item generated for the annotated function, whose text is
/// `function`: the function, unchanged, inside `impl <target> { .. }`.
pub fn expand_extends(config: &ExtendsConfig, function: &str) -> (r: String)
    ensures
        r@ == extended_item(config.target@, function@),
{
    let mut r = String::from_str("impl ");
    push_str(&mut r, config.target.as_str());
    push_str(&mut r, " {\n");
    push_str(&mut r, function);
    push_str(&mut r, "\n}");
    r
}

} // verus!
