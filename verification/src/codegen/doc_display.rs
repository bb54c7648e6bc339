//! `#[derive(DocDisplay)]`: a `Display` implementation whose text is the
//! item's doc comment, with `{field}` references filled in for structs and
//! one text per variant for enums.
use vstd::prelude::*;
use crate::text::{chars_of, push_char, push_str, same_chars};

verus! {

/// For each successive non-overlapping match of `pattern` in `text`, as
/// the `regex` crate's `Regex::captures_iter` finds them, the text of
/// capture group 1 (`None` where the group did not take part); `None`
/// when `Regex::new` rejects the pattern.
pub uninterp spec fn regex_group_one(pattern: Seq<char>, text: Seq<char>) -> Option<Seq<Option<Seq<char>>>>;

/// `text` with every non-overlapping match of `pattern` replaced by
/// `replacement`, as the `regex` crate's `Regex::replace_all` makes it;
/// `None` when `Regex::new` rejects the pattern.
pub uninterp spec fn regex_replace_all(pattern: Seq<char>, text: Seq<char>, replacement: Seq<char>) -> Option<
    Seq<char>,
>;

/// Compiles `pattern` with the regex crate's `Regex::new`, then takes
/// group 1 of each match in `text` (`Regex::captures_iter`) and `text` with
/// every match replaced by `replacement` (`Regex::replace_all`); `None`
/// when the pattern is rejected. The contract only names the results.
#[verifier::external_body]
fn regex_scan(pattern: &str, text: &str, replacement: &str) -> (r: Option<(Vec<Option<String>>, String)>)
    ensures
        match r {
            Some((groups, replaced)) => {
                &&& regex_group_one(pattern@, text@) == Some(
                    groups@.map_values(
                        |g: Option<String>| match g {
                            Some(s) => Some(s@),
                            None => None,
                        },
                    ),
                )
                &&& regex_replace_all(pattern@, text@, replacement@) == Some(replaced@)
            },
            None => regex_group_one(pattern@, text@) is None && regex_replace_all(
                pattern@,
                text@,
                replacement@,
            ) is None,
        },
{
    match regex::Regex::new(pattern) {
        Ok(re) => {
            let groups = re.captures_iter(text).map(|c| c.get(1).map(|m| m.as_str().to_string())).collect();
            Some((groups, re.replace_all(text, replacement).into_owned()))
        },
        Err(_) => None,
    }
}

/// A `{name}` placeholder in a doc comment: braces around one or more word
/// characters.
pub open spec fn field_ref_pattern() -> Seq<char> {
    "\\{(\\w+)\\}"@
}

/// The groups that took part, in order.
pub open spec fn present_groups(groups: Seq<Option<Seq<char>>>) -> Seq<Seq<char>>
    decreases groups.len(),
{
    if groups.len() == 0 {
        Seq::empty()
    } else {
        present_groups(groups.drop_last()) + match groups.last() {
            Some(g) => seq![g],
            None => Seq::empty(),
        }
    }
}

/// The field names a doc comment refers to, in order of appearance.
pub open spec fn field_refs_spec(doc: Seq<char>) -> Seq<Seq<char>> {
    match regex_group_one(field_ref_pattern(), doc) {
        Some(groups) => present_groups(groups),
        None => Seq::empty(),
    }
}

/// The doc comment with every placeholder turned into `{}`.
pub open spec fn format_string_spec(doc: Seq<char>) -> Seq<char> {
    match regex_replace_all(field_ref_pattern(), doc, "{}"@) {
        Some(s) => s,
        None => doc,
    }
}

/// The field names `doc` refers to as `{name}`, in order of appearance.
pub fn find_field_refs(doc: &str) -> (r: Vec<String>)
    ensures
        r@.map_values(|s: String| s@) == field_refs_spec(doc@),
{
    let groups = match regex_scan("\\{(\\w+)\\}", doc, "{}") {
        Some((g, _)) => g,
        None => {
            let r: Vec<String> = Vec::new();
            assert(r@.map_values(|s: String| s@) =~= Seq::<Seq<char>>::empty());
            return r;
        },
    };
    let ghost gv = groups@.map_values(
        |g: Option<String>| match g {
            Some(s) => Some(s@),
            None => None,
        },
    );
    let mut r: Vec<String> = Vec::new();
    let mut i: usize = 0;
    while i < groups.len()
        invariant
            i <= groups@.len(),
            gv == groups@.map_values(
                |g: Option<String>| match g {
                    Some(s) => Some(s@),
                    None => None,
                },
            ),
            r@.map_values(|s: String| s@) == present_groups(gv.take(i as int)),
        decreases groups@.len() - i,
    {
        assert(gv.take(i + 1).drop_last() =~= gv.take(i as int));
        let ghost before = r@.map_values(|s: String| s@);
        match &groups[i] {
            Some(s) => {
                r.push(s.clone());
                assert(r@.map_values(|s: String| s@) =~= before.push(s@));
            },
            None => {},
        }
        i = i + 1;
    }
    assert(gv.take(groups@.len() as int) =~= gv);
    r
}

/// The doc comment with every `{name}` placeholder turned into `{}`.
pub fn build_format_string(doc: &str) -> (r: String)
    ensures
        r@ == format_string_spec(doc@),
{
    match regex_scan("\\{(\\w+)\\}", doc, "{}") {
        Some((_, replaced)) => replaced,
        None => String::from_str(doc),
    }
}

/// A doc line without the one space that usually follows `///`.
pub open spec fn strip_one_space(line: Seq<char>) -> Seq<char> {
    if line.len() > 0 && line[0] == ' ' {
        line.drop_first()
    } else {
        line
    }
}

/// The doc text of lines `0..k`: each line without its leading space,
/// joined by line breaks (no break before the text starts).
pub open spec fn doc_text(lines: Seq<Seq<char>>, k: int) -> Seq<char>
    decreases k,
{
    if k <= 0 {
        Seq::empty()
    } else {
        let before = doc_text(lines, k - 1);
        (if before.len() > 0 {
            before.push('\n')
        } else {
            before
        }) + strip_one_space(lines[k - 1])
    }
}

/// The doc text of an item from the values of its `doc` attributes.
pub fn doc_comment_text(lines: &Vec<String>) -> (r: String)
    ensures
        r@ == doc_text(lines@.map_values(|l: String| l@), lines@.len() as int),
{
    let ghost lv = lines@.map_values(|l: String| l@);
    let mut r = String::new();
    let mut i: usize = 0;
    while i < lines.len()
        invariant
            i <= lines@.len(),
            lv == lines@.map_values(|l: String| l@),
            r@ == doc_text(lv, i as int),
        decreases lines@.len() - i,
    {
        let cs = chars_of(lines[i].as_str());
        if r.as_str().is_empty() {
        } else {
            push_char(&mut r, '\n');
        }
        let start: usize = if cs.len() > 0 && cs[0] == ' ' {
            1
        } else {
            0
        };
        let mut j: usize = start;
        let ghost base = r@;
        while j < cs.len()
            invariant
                start <= j <= cs@.len(),
                r@ == base + cs@.subrange(start as int, j as int),
            decreases cs@.len() - j,
        {
            push_char(&mut r, cs[j]);
            j = j + 1;
            assert(r@ =~= base + cs@.subrange(start as int, j as int));
        }
        assert(strip_one_space(lv[i as int]) =~= cs@.subrange(start as int, cs@.len() as int));
        i = i + 1;
    }
    r
}

/// A named field of a struct that shows its doc comment.
#[derive(Debug, Clone)]
pub struct DisplayField {
    pub name: String,
    /// The type as written, when it is an `Option` or a `Result`.
    pub optional_type: Option<String>,
}

/// The fields of the struct.
#[derive(Debug, Clone)]
pub enum DisplayFields {
    Named(Vec<DisplayField>),
    Unnamed,
    Unit,
}

/// A variant of an enum that shows its doc comments.
#[derive(Debug, Clone)]
pub struct DocVariant {
    pub name: String,
    /// The values of its `doc` attributes.
    pub docs: Vec<String>,
}

/// The item `#[derive(DocDisplay)]` is put on.
#[derive(Debug, Clone)]
pub enum DocItem {
    Struct(DisplayFields),
    Enum(Vec<DocVariant>),
    Union,
}

/// What the generated `fmt` writes.
#[derive(Debug, Clone, PartialEq, Eq)]
pub enum DisplayBody {
    /// This text as it is.
    Literal(String),
    /// This format string, filled with these fields in order.
    Interpolated(String, Vec<String>),
    /// For each variant in order, its name and text.
    ByVariant(Vec<(String, String)>),
}

/// The view of a display body.
pub open spec fn body_view(b: DisplayBody) -> (nat, Seq<char>, Seq<Seq<char>>, Seq<(Seq<char>, Seq<char>)>) {
    match b {
        DisplayBody::Literal(t) => (0, t@, Seq::empty(), Seq::empty()),
        DisplayBody::Interpolated(f, xs) => (1, f@, xs@.map_values(|x: String| x@), Seq::empty()),
        DisplayBody::ByVariant(vs) => (2, Seq::empty(), Seq::empty(), vs@.map_values(|v: (String, String)| (v.0@, v.1@))),
    }
}

/// The first field whose type is an `Option` or `Result`, by its type.
pub open spec fn first_optional(fields: Seq<DisplayField>) -> Option<Seq<char>>
    decreases fields.len(),
{
    if fields.len() == 0 {
        None
    } else {
        match fields[0].optional_type {
            Some(t) => Some(t@),
            None => first_optional(fields.drop_first()),
        }
    }
}

/// The first reference that names none of `names`.
pub open spec fn first_unknown(refs: Seq<Seq<char>>, names: Seq<Seq<char>>) -> Option<Seq<char>>
    decreases refs.len(),
{
    if refs.len() == 0 {
        None
    } else if !names.contains(refs[0]) {
        Some(refs[0])
    } else {
        first_unknown(refs.drop_first(), names)
    }
}

/// Message for a reference to a field that does not exist.
pub open spec fn unknown_field_text(name: Seq<char>) -> Seq<char> {
    "Field `"@ + name + "` referenced in doc comment doesn't exist"@
}

/// What a struct's `fmt` writes given its doc text, the field references
/// found in it (`refs`) and the text with those references turned into
/// `{}` (`fmt`), as (kind, text, fields) with kind 0 for a literal and 1
/// for a format string; or why the struct is refused.
pub open spec fn struct_display_spec(doc: Seq<char>, refs: Seq<Seq<char>>, fmt: Seq<char>, fields: DisplayFields) -> Result<
    (nat, Seq<char>, Seq<Seq<char>>),
    Seq<char>,
> {
    match fields {
        DisplayFields::Unnamed => Err("DocDisplay doesn't support tuple structs with field interpolation"@),
        DisplayFields::Named(fs) => match first_optional(fs@) {
            Some(t) => Err("DocDisplay doesn't support `"@ + t + "`s yet"@),
            None => match first_unknown(refs, fs@.map_values(|f: DisplayField| f.name@)) {
                Some(x) => Err(unknown_field_text(x)),
                None => if refs.len() == 0 {
                    Ok((0, doc, Seq::empty()))
                } else {
                    Ok((1, fmt, refs))
                },
            },
        },
        DisplayFields::Unit => match first_unknown(refs, Seq::empty()) {
            Some(x) => Err(unknown_field_text(x)),
            None => Ok((0, doc, Seq::empty())),
        },
    }
}

fn first_unknown_ref(refs: &Vec<String>, names: &Vec<String>) -> (r: Option<String>)
    ensures
        match first_unknown(refs@.map_values(|s: String| s@), names@.map_values(|s: String| s@)) {
            Some(x) => r matches Some(s) && s@ == x,
            None => r is None,
        },
{
    let ghost rv = refs@.map_values(|s: String| s@);
    let ghost nv = names@.map_values(|s: String| s@);
    let mut i: usize = 0;
    assert(rv.skip(0) =~= rv);
    while i < refs.len()
        invariant
            i <= refs@.len(),
            rv == refs@.map_values(|s: String| s@),
            nv == names@.map_values(|s: String| s@),
            first_unknown(rv, nv) == first_unknown(rv.skip(i as int), nv),
        decreases refs@.len() - i,
    {
        let ghost rest = rv.skip(i as int);
        assert(rest.drop_first() =~= rv.skip(i + 1));
        assert(rest[0] == refs@[i as int]@);
        let target = chars_of(refs[i].as_str());
        let mut found = false;
        let mut k: usize = 0;
        while k < names.len()
            invariant
                k <= names@.len(),
                target@ == refs@[i as int]@,
                nv == names@.map_values(|s: String| s@),
                found <==> exists|j: int| 0 <= j < k && nv[j] == target@,
            decreases names@.len() - k,
        {
            if same_chars(&chars_of(names[k].as_str()), &target) {
                found = true;
            }
            assert(nv[k as int] == names@[k as int]@);
            k = k + 1;
        }
        if !found {
            assert(!nv.contains(target@));
            return Some(refs[i].clone());
        }
        i = i + 1;
    }
    assert(rv.skip(i as int) =~= Seq::<Seq<char>>::empty());
    None
}

/// What the `fmt` of a struct writes, given the field references found in
/// its doc text and the text with them turned into `{}`.
pub fn struct_display(doc: &str, refs: Vec<String>, fmt: String, fields: &DisplayFields) -> (r: Result<
    DisplayBody,
    String,
>)
    ensures
        match struct_display_spec(doc@, refs@.map_values(|s: String| s@), fmt@, *fields) {
            Err(m) => r matches Err(e) && e@ == m,
            Ok((kind, text, xs)) => r matches Ok(b) && body_view(b) == (kind, text, xs, Seq::<(Seq<char>, Seq<char>)>::empty()),
        },
{
    let names: Vec<String> = match fields {
        DisplayFields::Unnamed => {
            return Err(String::from_str("DocDisplay doesn't support tuple structs with field interpolation"));
        },
        DisplayFields::Named(fs) => {
            let mut i: usize = 0;
            assert(fs@.skip(0) =~= fs@);
            while i < fs.len()
                invariant
                    i <= fs@.len(),
                    *fields == DisplayFields::Named(*fs),
                    first_optional(fs@) == first_optional(fs@.skip(i as int)),
                decreases fs@.len() - i,
            {
                let ghost rest = fs@.skip(i as int);
                assert(rest.drop_first() =~= fs@.skip(i + 1));
                assert(rest[0] == fs@[i as int]);
                match &fs[i].optional_type {
                    Some(t) => {
                        let mut m = String::from_str("DocDisplay doesn't support `");
                        push_str(&mut m, t.as_str());
                        push_str(&mut m, "`s yet");
                        return Err(m);
                    },
                    None => {},
                }
                i = i + 1;
            }
            assert(fs@.skip(i as int) =~= Seq::<DisplayField>::empty());
            let mut names: Vec<String> = Vec::new();
            let mut k: usize = 0;
            while k < fs.len()
                invariant
                    k <= fs@.len(),
                    names@.map_values(|s: String| s@) == fs@.take(k as int).map_values(|f: DisplayField| f.name@),
                decreases fs@.len() - k,
            {
                let ghost before = names@.map_values(|s: String| s@);
                names.push(fs[k].name.clone());
                assert(names@.map_values(|s: String| s@) =~= before.push(fs@[k as int].name@));
                assert(fs@.take(k + 1).map_values(|f: DisplayField| f.name@) =~= fs@.take(k as int).map_values(
                    |f: DisplayField| f.name@,
                ).push(fs@[k as int].name@));
                k = k + 1;
            }
            assert(fs@.take(fs@.len() as int) =~= fs@);
            names
        },
        DisplayFields::Unit => {
            let names: Vec<String> = Vec::new();
            assert(names@.map_values(|s: String| s@) =~= Seq::<Seq<char>>::empty());
            names
        },
    };
    match first_unknown_ref(&refs, &names) {
        Some(x) => {
            let mut m = String::from_str("Field `");
            push_str(&mut m, x.as_str());
            push_str(&mut m, "` referenced in doc comment doesn't exist");
            return Err(m);
        },
        None => {},
    }
    if refs.len() == 0 {
        Ok(DisplayBody::Literal(String::from_str(doc)))
    } else {
        Ok(DisplayBody::Interpolated(fmt, refs))
    }
}

/// The text of a variant: its own doc text, or `<Enum>::<Variant>` when it
/// has none.
pub open spec fn variant_text(enum_name: Seq<char>, v: DocVariant) -> Seq<char> {
    let d = doc_text(v.docs@.map_values(|l: String| l@), v.docs@.len() as int);
    if d.len() > 0 {
        d
    } else {
        enum_name + "::"@ + v.name@
    }
}

/// Some variant has doc text of its own.
pub open spec fn any_variant_doc(vs: Seq<DocVariant>) -> bool {
    exists|i: int| 0 <= i < vs.len() && doc_text(vs[i].docs@.map_values(|l: String| l@), vs[i].docs@.len() as int).len() > 0
}

/// What the generated `fmt` of `#[derive(DocDisplay)]` writes for the item
/// named `name` with the doc attributes `docs`, as (kind, text, fields,
/// variants) with kind 0 for a literal, 1 for a format string and 2 for
/// one text per variant; or why the item is refused. A struct needs a doc
/// comment; a union is refused; an enum whose variants have no doc text
/// writes its own doc text.
pub open spec fn doc_display_spec(name: Seq<char>, docs: Seq<Seq<char>>, item: DocItem) -> Result<
    (nat, Seq<char>, Seq<Seq<char>>, Seq<(Seq<char>, Seq<char>)>),
    Seq<char>,
> {
    let doc = doc_text(docs, docs.len() as int);
    match item {
        DocItem::Struct(fields) => if doc.len() == 0 {
            Err("DocDisplay requires doc comments on the main type for structs"@)
        } else {
            match struct_display_spec(doc, field_refs_spec(doc), format_string_spec(doc), fields) {
                Err(m) => Err(m),
                Ok((k, t, xs)) => Ok((k, t, xs, Seq::empty())),
            }
        },
        DocItem::Union => Err("DocDisplay cannot be derived for unions"@),
        DocItem::Enum(vs) => if any_variant_doc(vs@) {
            Ok((2, Seq::empty(), Seq::empty(), vs@.map_values(|v: DocVariant| (v.name@, variant_text(name, v)))))
        } else {
            Ok((0, doc, Seq::empty(), Seq::empty()))
        },
    }
}

/// What `#[derive(DocDisplay)]` generates for the item `name` with doc
/// attributes `docs`.
pub fn doc_display_plan(name: &str, docs: &Vec<String>, item: &DocItem) -> (r: Result<DisplayBody, String>)
    ensures
        match doc_display_spec(name@, docs@.map_values(|l: String| l@), *item) {
            Err(m) => r matches Err(e) && e@ == m,
            Ok(v) => r matches Ok(b) && body_view(b) == v,
        },
{
    let doc = doc_comment_text(docs);
    match item {
        DocItem::Struct(fields) => {
            if doc.as_str().is_empty() {
                return Err(String::from_str("DocDisplay requires doc comments on the main type for structs"));
            }
            let refs = find_field_refs(doc.as_str());
            let fmt = build_format_string(doc.as_str());
            struct_display(doc.as_str(), refs, fmt, fields)
        },
        DocItem::Union => Err(String::from_str("DocDisplay cannot be derived for unions")),
        DocItem::Enum(vs) => {
            let mut out: Vec<(String, String)> = Vec::new();
            let mut any = false;
            let mut i: usize = 0;
            while i < vs.len()
                invariant
                    i <= vs@.len(),
                    any <==> exists|j: int| 0 <= j < i && doc_text(vs@[j].docs@.map_values(|l: String| l@), vs@[j].docs@.len() as int).len() > 0,
                    out@.map_values(|v: (String, String)| (v.0@, v.1@)) == vs@.take(i as int).map_values(
                        |v: DocVariant| (v.name@, variant_text(name@, v)),
                    ),
                decreases vs@.len() - i,
            {
                let v = &vs[i];
                let vd = doc_comment_text(&v.docs);
                let text = if vd.as_str().is_empty() {
                    let mut t = String::from_str(name);
                    push_str(&mut t, "::");
                    push_str(&mut t, v.name.as_str());
                    t
                } else {
                    any = true;
                    vd
                };
                let ghost before = out@.map_values(|v: (String, String)| (v.0@, v.1@));
                out.push((v.name.clone(), text));
                assert(out@.map_values(|v: (String, String)| (v.0@, v.1@)) =~= before.push(
                    (vs@[i as int].name@, variant_text(name@, vs@[i as int])),
                ));
                assert(vs@.take(i + 1).map_values(|v: DocVariant| (v.name@, variant_text(name@, v))) =~= vs@.take(
                    i as int,
                ).map_values(|v: DocVariant| (v.name@, variant_text(name@, v))).push(
                    (vs@[i as int].name@, variant_text(name@, vs@[i as int])),
                ));
                i = i + 1;
            }
            assert(vs@.take(vs@.len() as int) =~= vs@);
            if any {
                Ok(DisplayBody::ByVariant(out))
            } else {
                Ok(DisplayBody::Literal(doc))
            }
        },
    }
}

} // verus!
