//! `#[derive(BuilderLite)]`, `#[derive(Builder)]` and `#[derive(Construct)]`:
//! setters and builders for structs with named fields, and constructors for
//! those and for unit structs.
use vstd::prelude::*;
use crate::codegen::ItemShape;
use crate::text::push_str;

verus! {

/// Why a derive called `derive` refuses an item of this shape, if it does:
/// only structs with named fields are accepted.
pub open spec fn shape_error(derive: Seq<char>, shape: ItemShape) -> Option<Seq<char>> {
    match shape {
        ItemShape::NamedStruct => None,
        ItemShape::TupleStruct => Some(derive + " only supports structs with named fields"@),
        ItemShape::UnitStruct => Some(derive + " cannot be derived for unit structs"@),
        ItemShape::Enum => Some(derive + " cannot be derived for enums"@),
        ItemShape::Union => Some(derive + " cannot be derived for unions"@),
    }
}

fn check_shape(derive: &str, shape: ItemShape) -> (r: Result<(), String>)
    ensures
        match shape_error(derive@, shape) {
            Some(m) => r matches Err(e) && e@ == m,
            None => r is Ok,
        },
{
    let suffix = match shape {
        ItemShape::NamedStruct => {
            return Ok(());
        },
        ItemShape::TupleStruct => " only supports structs with named fields",
        ItemShape::UnitStruct => " cannot be derived for unit structs",
        ItemShape::Enum => " cannot be derived for enums",
        ItemShape::Union => " cannot be derived for unions",
    };
    let mut m = String::from_str(derive);
    push_str(&mut m, suffix);
    Err(m)
}

/// Whether `c` has the Unicode `Alphabetic` property, as std's
/// `char::is_alphabetic` decides it.
pub uninterp spec fn alphabetic(c: char) -> bool;

/// std `char::is_alphabetic`; the contract only names the result.
#[verifier::external_body]
fn is_alphabetic(c: char) -> (r: bool)
    ensures
        r == alphabetic(c),
{
    c.is_alphabetic()
}

/// One item inside a field's `#[builder(...)]` attributes, in order.
#[derive(Debug, Clone, PartialEq, Eq)]
pub enum BuilderMeta {
    /// `skip`.
    Skip,
    /// `rename = "<name>"`.
    Rename(String),
    /// `rename` without a string value; the text is the parser's complaint.
    RenameMalformed(String),
    /// Any other name; the text is the name when it is a single identifier,
    /// empty otherwise.
    Unknown(String),
    /// Arguments that could not be read at all; the text is the parser's
    /// complaint.
    Unreadable(String),
}

/// A named field and the items of its `#[builder(...)]` attributes.
#[derive(Debug, Clone)]
pub struct BuilderField {
    pub name: String,
    pub metas: Vec<BuilderMeta>,
}

/// The message for an unknown item in `#[builder(...)]`.
pub open spec fn unknown_builder_text(name: Seq<char>) -> Seq<char> {
    "unknown builder attribute `"@ + name + "`. Valid attributes are: `skip`, `rename = \"...\"`"@
}

/// Reads `metas` in order from the settings `(skip, rename)`: each of
/// `skip` and `rename` at most once, a new name not empty and starting with
/// a letter or `_`.
pub open spec fn read_builder_metas(metas: Seq<BuilderMeta>, skip: bool, rename: Option<Seq<char>>) -> Result<
    (bool, Option<Seq<char>>),
    Seq<char>,
>
    decreases metas.len(),
{
    if metas.len() == 0 {
        Ok((skip, rename))
    } else {
        match metas[0] {
            BuilderMeta::Skip => if skip {
                Err("duplicate `skip` attribute"@)
            } else {
                read_builder_metas(metas.drop_first(), true, rename)
            },
            BuilderMeta::Rename(n) => if rename is Some {
                Err("duplicate `rename` attribute"@)
            } else if n@.len() == 0 {
                Err("method name cannot be empty"@)
            } else if !alphabetic(n@[0]) && n@[0] != '_' {
                Err("method name must start with a letter or underscore"@)
            } else {
                read_builder_metas(metas.drop_first(), skip, Some(n@))
            },
            BuilderMeta::RenameMalformed(m) => if rename is Some {
                Err("duplicate `rename` attribute"@)
            } else {
                Err(m@)
            },
            BuilderMeta::Unknown(x) => Err(unknown_builder_text(x@)),
            BuilderMeta::Unreadable(m) => Err(m@),
        }
    }
}

/// The settings of one field: whether it is skipped and its setter's name
/// if renamed.
pub open spec fn field_settings(f: BuilderField) -> Result<(bool, Option<Seq<char>>), Seq<char>> {
    read_builder_metas(f.metas@, false, None)
}

fn builder_settings(metas: &Vec<BuilderMeta>) -> (r: Result<(bool, Option<String>), String>)
    ensures
        match read_builder_metas(metas@, false, None) {
            Ok((s, n)) => r matches Ok((s2, n2)) && s2 == s && match n2 {
                Some(x) => n == Some(x@),
                None => n is None,
            },
            Err(m) => r matches Err(e) && e@ == m,
        },
{
    let mut skip = false;
    let mut rename: Option<String> = None;
    let mut i: usize = 0;
    assert(metas@.skip(0) =~= metas@);
    while i < metas.len()
        invariant
            i <= metas@.len(),
            read_builder_metas(metas@, false, None) == read_builder_metas(
                metas@.skip(i as int),
                skip,
                match rename {
                    Some(x) => Some(x@),
                    None => None,
                },
            ),
        decreases metas@.len() - i,
    {
        let ghost rest = metas@.skip(i as int);
        assert(rest.drop_first() =~= metas@.skip(i + 1));
        assert(rest[0] == metas@[i as int]);
        match &metas[i] {
            BuilderMeta::Skip => {
                if skip {
                    return Err(String::from_str("duplicate `skip` attribute"));
                }
                skip = true;
            },
            BuilderMeta::Rename(n) => {
                if rename.is_some() {
                    return Err(String::from_str("duplicate `rename` attribute"));
                }
                let cs = crate::text::chars_of(n.as_str());
                if cs.len() == 0 {
                    return Err(String::from_str("method name cannot be empty"));
                }
                let first = cs[0];
                if !is_alphabetic(first) && first != '_' {
                    return Err(String::from_str("method name must start with a letter or underscore"));
                }
                rename = Some(n.clone());
            },
            BuilderMeta::RenameMalformed(m) => {
                if rename.is_some() {
                    return Err(String::from_str("duplicate `rename` attribute"));
                }
                return Err(m.clone());
            },
            BuilderMeta::Unknown(x) => {
                let mut m = String::from_str("unknown builder attribute `");
                push_str(&mut m, x.as_str());
                push_str(&mut m, "`. Valid attributes are: `skip`, `rename = \"...\"`");
                return Err(m);
            },
            BuilderMeta::Unreadable(m) => {
                return Err(m.clone());
            },
        }
        i = i + 1;
    }
    assert(metas@.skip(i as int) =~= Seq::<BuilderMeta>::empty());
    Ok((skip, rename))
}

/// A generated setter: the field it sets, its name and its doc line.
#[derive(Debug, Clone)]
pub struct SetterMethod {
    pub field: usize,
    pub name: String,
    pub doc: String,
}

/// Doc line of the setter of field `name`.
pub open spec fn setter_doc(name: Seq<char>) -> Seq<char> {
    "Set the `"@ + name + "` field."@
}

/// The errors of the fields `0..k`, in order.
pub open spec fn lite_errors(fields: Seq<BuilderField>, k: int) -> Seq<Seq<char>>
    decreases k,
{
    if k <= 0 {
        Seq::empty()
    } else {
        lite_errors(fields, k - 1) + match field_settings(fields[k - 1]) {
            Err(m) => seq![m],
            Ok(_) => Seq::empty(),
        }
    }
}

/// The setters of the fields `0..k` that are not skipped, as (field,
/// name, doc): named `with_<field>` unless renamed.
pub open spec fn lite_setters(fields: Seq<BuilderField>, k: int) -> Seq<(usize, Seq<char>, Seq<char>)>
    decreases k,
{
    if k <= 0 {
        Seq::empty()
    } else {
        lite_setters(fields, k - 1) + match field_settings(fields[k - 1]) {
            Ok((false, rename)) => seq![
                (
                    (k - 1) as usize,
                    match rename {
                        Some(n) => n,
                        None => "with_"@ + fields[k - 1].name@,
                    },
                    setter_doc(fields[k - 1].name@),
                ),
            ],
            _ => Seq::empty(),
        }
    }
}

/// What `#[derive(BuilderLite)]` generates: a setter per field that is not
/// skipped; or the messages it refuses the item with. Only non-generic
/// structs with named fields are accepted. When fields are malformed,
/// every field's error is reported, the first one twice (the first error
/// is the one the others are appended to).
pub fn builder_lite_plan(shape: ItemShape, generic: bool, fields: &Vec<BuilderField>) -> (r: Result<
    Vec<SetterMethod>,
    Vec<String>,
>)
    ensures
        match shape_error("BuilderLite"@, shape) {
            Some(m) => r matches Err(es) && es@.map_values(|e: String| e@) == seq![m],
            None => if generic {
                r matches Err(es) && es@.map_values(|e: String| e@) == seq![
                    "BuilderLite does not currently support generics"@,
                ]
            } else if lite_errors(fields@, fields@.len() as int).len() > 0 {
                r matches Err(es) && es@.map_values(|e: String| e@) == seq![
                    lite_errors(fields@, fields@.len() as int)[0],
                ] + lite_errors(fields@, fields@.len() as int)
            } else {
                r matches Ok(ms) && ms@.map_values(|m: SetterMethod| (m.field, m.name@, m.doc@)) == lite_setters(
                    fields@,
                    fields@.len() as int,
                )
            },
        },
{
    match check_shape("BuilderLite", shape) {
        Err(m) => {
            let mut es: Vec<String> = Vec::new();
            es.push(m);
            assert(es@.map_values(|e: String| e@) =~= seq![es@[0]@]);
            return Err(es);
        },
        Ok(()) => {},
    }
    if generic {
        let mut es: Vec<String> = Vec::new();
        es.push(String::from_str("BuilderLite does not currently support generics"));
        assert(es@.map_values(|e: String| e@) =~= seq![es@[0]@]);
        return Err(es);
    }
    let mut methods: Vec<SetterMethod> = Vec::new();
    let mut errors: Vec<String> = Vec::new();
    let mut i: usize = 0;
    while i < fields.len()
        invariant
            i <= fields@.len(),
            errors@.map_values(|e: String| e@) == lite_errors(fields@, i as int),
            methods@.map_values(|m: SetterMethod| (m.field, m.name@, m.doc@)) == lite_setters(fields@, i as int),
        decreases fields@.len() - i,
    {
        let f = &fields[i];
        let ghost errs_before = errors@.map_values(|e: String| e@);
        let ghost meths_before = methods@.map_values(|m: SetterMethod| (m.field, m.name@, m.doc@));
        match builder_settings(&f.metas) {
            Err(m) => {
                errors.push(m);
                assert(errors@.map_values(|e: String| e@) =~= errs_before.push(errors@[errors@.len() - 1]@));
                assert(methods@.map_values(|m: SetterMethod| (m.field, m.name@, m.doc@)) =~= meths_before);
            },
            Ok((skip, rename)) => {
                if !skip {
                    let name = match rename {
                        Some(n) => n,
                        None => {
                            let mut n = String::from_str("with_");
                            push_str(&mut n, f.name.as_str());
                            n
                        },
                    };
                    let mut doc = String::from_str("Set the `");
                    push_str(&mut doc, f.name.as_str());
                    push_str(&mut doc, "` field.");
                    methods.push(SetterMethod { field: i, name, doc });
                    assert(methods@.map_values(|m: SetterMethod| (m.field, m.name@, m.doc@)) =~= meths_before.push(
                        (i, methods@[methods@.len() - 1].name@, methods@[methods@.len() - 1].doc@),
                    ));
                } else {
                    assert(methods@.map_values(|m: SetterMethod| (m.field, m.name@, m.doc@)) =~= meths_before);
                }
                assert(errors@.map_values(|e: String| e@) =~= errs_before);
            },
        }
        i = i + 1;
    }
    if errors.len() > 0 {
        let ghost errs = errors@.map_values(|e: String| e@);
        let first = errors[0].clone();
        let mut all: Vec<String> = Vec::new();
        all.push(first);
        let mut k: usize = 0;
        while k < errors.len()
            invariant
                k <= errors@.len(),
                errs == errors@.map_values(|e: String| e@),
                errs.len() > 0,
                all@.map_values(|e: String| e@) == seq![errs[0]] + errs.take(k as int),
            decreases errors@.len() - k,
        {
            let ghost before = all@.map_values(|e: String| e@);
            all.push(errors[k].clone());
            assert(all@.map_values(|e: String| e@) =~= before.push(errs[k as int]));
            assert(errs.take(k + 1) =~= errs.take(k as int).push(errs[k as int]));
            k = k + 1;
        }
        assert(errs.take(errors@.len() as int) =~= errs);
        return Err(all);
    }
    Ok(methods)
}

/// A setter of a generated builder: named after its field.
#[derive(Debug, Clone)]
pub struct BuilderSetter {
    pub name: String,
    pub doc: String,
    /// The error `build` reports when the field was never set.
    pub missing: String,
}

/// What `#[derive(Builder)]` generates.
#[derive(Debug, Clone)]
pub struct BuilderPlan {
    /// `<Struct>Builder`.
    pub builder_name: String,
    pub setters: Vec<BuilderSetter>,
}

/// The error `build` reports for an unset field.
pub open spec fn missing_field_text(name: Seq<char>) -> Seq<char> {
    "field `"@ + name + "` is required but was not set"@
}

/// What `#[derive(Builder)]` generates for struct `name` with these field
/// names: a `<name>Builder` with one setter per field, or the message it is
/// refused with. Only non-generic structs with named fields are accepted.
pub fn builder_plan(name: &str, shape: ItemShape, generic: bool, fields: &Vec<String>) -> (r: Result<BuilderPlan, String>)
    ensures
        match shape_error("Builder"@, shape) {
            Some(m) => r matches Err(e) && e@ == m,
            None => if generic {
                r matches Err(e) && e@ == "Builder does not currently support generics"@
            } else {
                r matches Ok(p) && p.builder_name@ == name@ + "Builder"@ && p.setters@.map_values(
                    |s: BuilderSetter| (s.name@, s.doc@, s.missing@),
                ) == fields@.map_values(
                    |f: String| (f@, setter_doc(f@), missing_field_text(f@)),
                )
            },
        },
{
    match check_shape("Builder", shape) {
        Err(m) => {
            return Err(m);
        },
        Ok(()) => {},
    }
    if generic {
        return Err(String::from_str("Builder does not currently support generics"));
    }
    let mut builder_name = String::from_str(name);
    push_str(&mut builder_name, "Builder");
    let mut setters: Vec<BuilderSetter> = Vec::new();
    let mut i: usize = 0;
    while i < fields.len()
        invariant
            i <= fields@.len(),
            setters@.map_values(|s: BuilderSetter| (s.name@, s.doc@, s.missing@)) == fields@.take(
                i as int,
            ).map_values(|f: String| (f@, setter_doc(f@), missing_field_text(f@))),
        decreases fields@.len() - i,
    {
        let f = &fields[i];
        let mut doc = String::from_str("Set the `");
        push_str(&mut doc, f.as_str());
        push_str(&mut doc, "` field.");
        let mut missing = String::from_str("field `");
        push_str(&mut missing, f.as_str());
        push_str(&mut missing, "` is required but was not set");
        let ghost before = setters@.map_values(|s: BuilderSetter| (s.name@, s.doc@, s.missing@));
        setters.push(BuilderSetter { name: f.clone(), doc, missing });
        assert(setters@.map_values(|s: BuilderSetter| (s.name@, s.doc@, s.missing@)) =~= before.push(
            (f@, setter_doc(f@), missing_field_text(f@)),
        ));
        assert(fields@.take(i + 1).map_values(|f: String| (f@, setter_doc(f@), missing_field_text(f@)))
            =~= fields@.take(i as int).map_values(|f: String| (f@, setter_doc(f@), missing_field_text(f@))).push(
            (f@, setter_doc(f@), missing_field_text(f@)),
        ));
        i = i + 1;
    }
    assert(fields@.take(fields@.len() as int) =~= fields@);
    Ok(BuilderPlan { builder_name, setters })
}

/// What `#[derive(Construct)]` generates: an inherent `new` method.
#[derive(Debug, Clone, PartialEq, Eq)]
pub enum ConstructPlan {
    /// For a unit struct: `new()` takes nothing and returns the unit value.
    UnitValue,
    /// For a struct with named fields: `new` takes one parameter per field,
    /// named after it and in the fields' order, and sets each field from
    /// its parameter.
    FromFields(Vec<String>),
}

/// Why `#[derive(Construct)]` refuses an item of this shape, if it does:
/// structs with named fields and unit structs are accepted.
pub open spec fn construct_shape_error(shape: ItemShape) -> Option<Seq<char>> {
    match shape {
        ItemShape::UnitStruct => None,
        _ => shape_error("AutoConstruct"@, shape),
    }
}

/// What `#[derive(Construct)]` generates for an item of this shape whose
/// named fields are `fields`, or the message it is refused with.
pub fn construct_plan(shape: ItemShape, fields: &Vec<String>) -> (r: Result<ConstructPlan, String>)
    ensures
        match construct_shape_error(shape) {
            Some(m) => r matches Err(e) && e@ == m,
            None => match shape {
                ItemShape::UnitStruct => r == Ok::<ConstructPlan, String>(ConstructPlan::UnitValue),
                _ => r matches Ok(ConstructPlan::FromFields(ps)) && ps@.map_values(|p: String| p@)
                    == fields@.map_values(|f: String| f@),
            },
        },
{
    if let ItemShape::UnitStruct = shape {
        return Ok(ConstructPlan::UnitValue);
    }
    match check_shape("AutoConstruct", shape) {
        Err(m) => {
            return Err(m);
        },
        Ok(()) => {},
    }
    let mut params: Vec<String> = Vec::new();
    let mut i: usize = 0;
    while i < fields.len()
        invariant
            i <= fields@.len(),
            params@.map_values(|p: String| p@) == fields@.take(i as int).map_values(|f: String| f@),
        decreases fields@.len() - i,
    {
        let ghost before = params@.map_values(|p: String| p@);
        params.push(fields[i].clone());
        assert(params@.map_values(|p: String| p@) =~= before.push(fields@[i as int]@));
        assert(fields@.take(i + 1).map_values(|f: String| f@) =~= fields@.take(i as int).map_values(
            |f: String| f@,
        ).push(fields@[i as int]@));
        i = i + 1;
    }
    assert(fields@.take(fields@.len() as int) =~= fields@);
    Ok(ConstructPlan::FromFields(params))
}

} // verus!
