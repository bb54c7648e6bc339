//! What the code-generating attributes and derives decide: which items they
//! accept, the message they refuse one with, and what they generate, all
//! on plain values (names, flags, literals) read off the annotated item.
use vstd::prelude::*;

pub mod builders;
pub mod doc_display;
pub mod entry;
pub mod extends;
pub mod math;
pub mod minmax;
pub mod swizzle;

verus! {

/// The kind of item a derive is applied to.
#[derive(Debug, Clone, Copy, PartialEq, Eq, Structural)]
pub enum ItemShape {
    /// A struct with named fields.
    NamedStruct,
    /// A tuple struct.
    TupleStruct,
    /// A unit struct.
    UnitStruct,
    Enum,
    Union,
}

/// The arguments of an attribute, as far as the attributes here read them.
#[derive(Debug, Clone, PartialEq, Eq)]
pub enum AttrArgs {
    /// No arguments.
    Empty,
    /// Exactly one identifier.
    Ident(String),
    /// Anything else; the text is the parser's complaint about it.
    Unreadable(String),
}

} // verus!
