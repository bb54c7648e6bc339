//! Attributes on entry-point functions: `#[main]`, `#[eyre]` and `#[ctrlc]`.
use vstd::prelude::*;
use crate::codegen::AttrArgs;
use crate::text::{chars_of, push_str, same_chars};

verus! {

/// The function an entry-point attribute is put on, as far as the
/// attributes look at it.
#[derive(Debug, Clone)]
pub struct EntryFn {
    pub name: String,
    /// It declares parameters.
    pub has_params: bool,
    /// It is `async`.
    pub is_async: bool,
    /// Its return type, as the attributes tell them apart.
    pub output: ReturnShape,
}

/// A function's declared return type.
#[derive(Debug, Clone, Copy, PartialEq, Eq, Structural)]
pub enum ReturnShape {
    /// No `->` at all.
    Default,
    /// `-> ()`.
    Unit,
    /// A tuple type with elements.
    Tuple,
    /// Any other type.
    Other,
}

/// Settings of `#[main]`: whether the program runs on an async runtime.
#[derive(Debug, Clone, Copy, PartialEq, Eq, Structural)]
pub struct MainConfig {
    is_async: bool,
}

/// The settings that `#[main]` with these arguments asks for: none gives a
/// plain main, `async` an async one; another identifier is refused with
/// `expected `async` or no parameters`, and what is not an identifier with
/// the parser's own complaint.
pub open spec fn main_config_spec(args: AttrArgs) -> Result<bool, Seq<char>> {
    match args {
        AttrArgs::Empty => Ok(false),
        AttrArgs::Ident(x) => if x@ == "async"@ {
            Ok(true)
        } else {
            Err("expected `async` or no parameters"@)
        },
        AttrArgs::Unreadable(m) => Err(m@),
    }
}

impl MainConfig {
    /// Whether the program runs on an async runtime.
    pub closed spec fn is_async_spec(&self) -> bool {
        self.is_async
    }

    /// Reads the arguments of `#[main]`.
    pub fn parse(args: &AttrArgs) -> (r: Result<MainConfig, String>)
        ensures
            match main_config_spec(*args) {
                Ok(b) => r matches Ok(c) && c.is_async_spec() == b,
                Err(m) => r matches Err(e) && e@ == m,
            },
    {
        match args {
            AttrArgs::Empty => Ok(MainConfig { is_async: false }),
            AttrArgs::Ident(x) => {
                proof {
                    reveal_strlit("async");
                }
                if same_chars(&chars_of(x.as_str()), &chars_of("async")) {
                    Ok(MainConfig { is_async: true })
                } else {
                    Err(String::from_str("expected `async` or no parameters"))
                }
            },
            AttrArgs::Unreadable(m) => Err(m.clone()),
        }
    }

    /// Whether the program runs on an async runtime.
    pub fn is_async(&self) -> (r: bool)
        ensures
            r == self.is_async_spec(),
    {
        self.is_async
    }
}

/// How `#[main]` rewrites a function.
#[derive(Debug, Clone)]
pub struct MainPlan {
    /// Name the function's own body is moved to: `__macror_inner_<name>`.
    pub inner_name: String,
    /// The body gets `Ok(())` appended and the unit return type becomes
    /// `color_eyre::Result<()>`; otherwise the declared type `T` becomes
    /// `color_eyre::Result<T>`.
    pub wrap_unit: bool,
    /// The new `main` drives the inner function on a multi-threaded runtime.
    pub on_runtime: bool,
}

/// The refusal of `#[main]` for a function, if any: it may not take
/// parameters, and it may be `async` only when `async` was asked for.
pub open spec fn main_error(config: MainConfig, f: EntryFn) -> Option<Seq<char>> {
    if f.has_params {
        Some("main function with #[macror::main] cannot have parameters"@)
    } else if !config.is_async_spec() && f.is_async {
        Some("function is async but `async` parameter not specified in macro"@)
    } else {
        None
    }
}

/// How `#[main]` with settings `config` rewrites `f`, or why it refuses.
pub fn plan_main(config: &MainConfig, f: &EntryFn) -> (r: Result<MainPlan, String>)
    ensures
        match main_error(*config, *f) {
            Some(m) => r matches Err(e) && e@ == m,
            None => r matches Ok(p) && p.inner_name@ == "__macror_inner_"@ + f.name@ && p.wrap_unit == (f.output
                == ReturnShape::Default) && p.on_runtime == config.is_async_spec(),
        },
{
    if f.has_params {
        return Err(String::from_str("main function with #[macror::main] cannot have parameters"));
    }
    if !config.is_async && f.is_async {
        return Err(String::from_str("function is async but `async` parameter not specified in macro"));
    }
    let mut inner_name = String::from_str("__macror_inner_");
    push_str(&mut inner_name, f.name.as_str());
    let wrap_unit = match f.output {
        ReturnShape::Default => true,
        _ => false,
    };
    Ok(MainPlan { inner_name, wrap_unit, on_runtime: config.is_async })
}

/// How `#[eyre]` rewrites `f`: it only accepts the function `main`, and
/// answers whether the unit return type is turned into
/// `color_eyre::Result<()>` with `Ok(())` appended (otherwise the declared
/// type is kept).
pub fn plan_eyre(f: &EntryFn) -> (r: Result<bool, String>)
    ensures
        f.name@ == "main"@ ==> r == Ok::<bool, String>(f.output == ReturnShape::Default),
        f.name@ != "main"@ ==> (r matches Err(e) && e@
            == "the `eyre` attribute can only be applied to the main function"@),
{
    proof {
        reveal_strlit("main");
    }
    if !same_chars(&chars_of(f.name.as_str()), &chars_of("main")) {
        return Err(String::from_str("the `eyre` attribute can only be applied to the main function"));
    }
    match f.output {
        ReturnShape::Default => Ok(true),
        _ => Ok(false),
    }
}

/// The refusal of `#[ctrlc]` for a function, if any: it may take no
/// parameters and must return nothing or `()`.
pub open spec fn ctrlc_error(f: EntryFn) -> Option<Seq<char>> {
    if f.has_params {
        Some("ctrlc handler function must not have any parameters"@)
    } else if f.output == ReturnShape::Tuple || f.output == ReturnShape::Other {
        Some("ctrlc handler function must return () or have no return type"@)
    } else {
        None
    }
}

/// The name of the function `#[ctrlc]` moves the handler's body into,
/// `__ctrlc_wrapper_<name>`, or why it refuses the handler.
pub fn plan_ctrlc(f: &EntryFn) -> (r: Result<String, String>)
    ensures
        match ctrlc_error(*f) {
            Some(m) => r matches Err(e) && e@ == m,
            None => r matches Ok(w) && w@ == "__ctrlc_wrapper_"@ + f.name@,
        },
{
    if f.has_params {
        return Err(String::from_str("ctrlc handler function must not have any parameters"));
    }
    match f.output {
        ReturnShape::Tuple | ReturnShape::Other => {
            return Err(String::from_str("ctrlc handler function must return () or have no return type"));
        },
        _ => {},
    }
    let mut w = String::from_str("__ctrlc_wrapper_");
    push_str(&mut w, f.name.as_str());
    Ok(w)
}

} // verus!
