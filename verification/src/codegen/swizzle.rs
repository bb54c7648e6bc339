//! `#[derive(Swizzle)]`: one accessor for every ordered selection (with
//! repetition) of a struct's fields, named by concatenating field names.
use vstd::prelude::*;
use vstd::arithmetic::power::pow;
use crate::codegen::{AttrArgs, ItemShape};
use crate::text::push_str;

verus! {

/// The sequences formed by putting each of `pool[0..k]` in front of each
/// of `tails`: first every tail behind `pool[0]`, then behind `pool[1]`, …
pub open spec fn extend_each<T>(pool: Seq<T>, k: nat, tails: Seq<Seq<T>>) -> Seq<Seq<T>>
    decreases k,
{
    if k == 0 {
        Seq::empty()
    } else {
        extend_each(pool, (k - 1) as nat, tails) + tails.map_values(|t: Seq<T>| seq![pool[k - 1]] + t)
    }
}

/// Every sequence of `length` items drawn from `pool`, repetition allowed,
/// ordered by the positions of their items in `pool` (first item slowest).
pub open spec fn selections<T>(pool: Seq<T>, length: nat) -> Seq<Seq<T>>
    decreases length,
{
    if length == 0 {
        seq![Seq::empty()]
    } else {
        extend_each(pool, pool.len(), selections(pool, (length - 1) as nat))
    }
}

fn prepend<T: Copy>(item: T, s: &Vec<T>) -> (r: Vec<T>)
    ensures
        r@ == seq![item] + s@,
{
    let mut r: Vec<T> = Vec::new();
    r.push(item);
    let mut i: usize = 0;
    while i < s.len()
        invariant
            i <= s@.len(),
            r@ == seq![item] + s@.take(i as int),
        decreases s@.len() - i,
    {
        r.push(s[i]);
        i = i + 1;
        assert(r@ =~= seq![item] + s@.take(i as int));
    }
    assert(s@.take(s@.len() as int) =~= s@);
    r
}

/// All sequences of `length` items of `pool`, repetition allowed, in the
/// order of `selections`.
pub fn permutations_with_repetition<T: Copy>(pool: &[T], length: usize) -> (r: Vec<Vec<T>>)
    ensures
        r@.map_values(|v: Vec<T>| v@) == selections(pool@, length as nat),
    decreases length,
{
    if length == 0 {
        let mut r: Vec<Vec<T>> = Vec::new();
        r.push(Vec::new());
        assert(r@.map_values(|v: Vec<T>| v@) =~= seq![Seq::<T>::empty()]);
        return r;
    }
    let tails = permutations_with_repetition(pool, length - 1);
    let ghost tv = tails@.map_values(|v: Vec<T>| v@);
    let mut result: Vec<Vec<T>> = Vec::new();
    let mut i: usize = 0;
    assert(result@.map_values(|v: Vec<T>| v@) =~= extend_each(pool@, 0, tv));
    while i < pool.len()
        invariant
            i <= pool@.len(),
            tv == tails@.map_values(|v: Vec<T>| v@),
            result@.map_values(|v: Vec<T>| v@) == extend_each(pool@, i as nat, tv),
        decreases pool@.len() - i,
    {
        let item = pool[i];
        let ghost start = result@.map_values(|v: Vec<T>| v@);
        let mut j: usize = 0;
        while j < tails.len()
            invariant
                i < pool@.len(),
                item == pool@[i as int],
                j <= tails@.len(),
                tv == tails@.map_values(|v: Vec<T>| v@),
                start == extend_each(pool@, i as nat, tv),
                result@.map_values(|v: Vec<T>| v@) == start + tv.take(j as int).map_values(
                    |t: Seq<T>| seq![pool@[i as int]] + t,
                ),
            decreases tails@.len() - j,
        {
            let v = prepend(item, &tails[j]);
            let ghost before = result@.map_values(|v: Vec<T>| v@);
            result.push(v);
            assert(result@.map_values(|v: Vec<T>| v@) =~= before.push(v@));
            assert(tv.take(j + 1).map_values(|t: Seq<T>| seq![pool@[i as int]] + t) =~= tv.take(
                j as int,
            ).map_values(|t: Seq<T>| seq![pool@[i as int]] + t).push(seq![item] + tails@[j as int]@));
            j = j + 1;
        }
        assert(tv.take(tails@.len() as int) =~= tv);
        i = i + 1;
    }
    result
}

proof fn lemma_extend_each_len<T>(pool: Seq<T>, k: nat, tails: Seq<Seq<T>>)
    ensures
        extend_each(pool, k, tails).len() == k * tails.len(),
    decreases k,
{
    if k == 0 {
        assert(k * tails.len() == 0) by (nonlinear_arith)
            requires
                k == 0,
        ;
    } else {
        let p = (k - 1) as nat;
        let l = tails.len();
        lemma_extend_each_len(pool, p, tails);
        assert(extend_each(pool, k, tails).len() == p * l + l);
        assert(p * l + l == k * l) by (nonlinear_arith)
            requires
                p == k - 1,
        ;
    }
}

proof fn lemma_extend_each_member<T>(pool: Seq<T>, k: nat, tails: Seq<Seq<T>>, i: int)
    requires
        k <= pool.len(),
        0 <= i < extend_each(pool, k, tails).len(),
    ensures
        exists|a: int, t: int|
            0 <= a < k && 0 <= t < tails.len() && extend_each(pool, k, tails)[i] == seq![pool[a]] + tails[t],
    decreases k,
{
    lemma_extend_each_len(pool, k, tails);
    let prev = extend_each(pool, (k - 1) as nat, tails);
    lemma_extend_each_len(pool, (k - 1) as nat, tails);
    if i < prev.len() {
        lemma_extend_each_member(pool, (k - 1) as nat, tails, i);
        let (a, t) = choose|a: int, t: int|
            0 <= a < k - 1 && 0 <= t < tails.len() && prev[i] == seq![pool[a]] + tails[t];
        assert(extend_each(pool, k, tails)[i] == prev[i]);
    } else {
        let t = i - prev.len();
        assert(extend_each(pool, k, tails)[i] == seq![pool[k - 1]] + tails[t]);
    }
}

/// There are `n^length` selections of `length` items from `n`.
pub proof fn lemma_selection_count<T>(pool: Seq<T>, length: nat)
    ensures
        selections(pool, length).len() == pow(pool.len() as int, length),
    decreases length,
{
    vstd::arithmetic::power::lemma_pow0(pool.len() as int);
    if length > 0 {
        lemma_selection_count(pool, (length - 1) as nat);
        lemma_extend_each_len(pool, pool.len(), selections(pool, (length - 1) as nat));
        vstd::arithmetic::power::lemma_pow_adds(pool.len() as int, 1, (length - 1) as nat);
        vstd::arithmetic::power::lemma_pow1(pool.len() as int);
    }
}

/// Every selection has `length` items, each one of `pool`.
pub proof fn lemma_selection_members<T>(pool: Seq<T>, length: nat, i: int)
    requires
        0 <= i < selections(pool, length).len(),
    ensures
        selections(pool, length)[i].len() == length,
        forall|j: int| 0 <= j < length ==> pool.contains(#[trigger] selections(pool, length)[i][j]),
    decreases length,
{
    if length > 0 {
        let tails = selections(pool, (length - 1) as nat);
        lemma_extend_each_member(pool, pool.len(), tails, i);
        let (a, t) = choose|a: int, t: int|
            0 <= a < pool.len() && 0 <= t < tails.len() && selections(pool, length)[i] == seq![pool[a]] + tails[t];
        lemma_selection_members(pool, (length - 1) as nat, t);
        let s = selections(pool, length)[i];
        assert forall|j: int| 0 <= j < length implies pool.contains(#[trigger] s[j]) by {
            if j == 0 {
                assert(s[0] == pool[a]);
            } else {
                assert(s[j] == tails[t][j - 1]);
            }
        }
    }
}

/// `n^1 + n^2 + ... + n^m`.
pub open spec fn power_sum(n: int, m: nat) -> int
    decreases m,
{
    if m == 0 {
        0
    } else {
        power_sum(n, (m - 1) as nat) + pow(n, m)
    }
}

proof fn lemma_selections_upto_len(active: Seq<usize>, m: nat)
    ensures
        selections_upto(active, m).len() == power_sum(active.len() as int, m),
    decreases m,
{
    if m > 0 {
        lemma_selections_upto_len(active, (m - 1) as nat);
        lemma_selection_count(active, m);
    }
}

/// With `n` fields taking part, `#[derive(Swizzle)]` generates
/// `n + n^2 + ... + n^n` accessors.
pub proof fn lemma_swizzle_method_count(fields: Seq<SwizzleField>)
    ensures
        swizzle_plan(fields).len() == power_sum(
            active_fields(fields, fields.len() as int).len() as int,
            active_fields(fields, fields.len() as int).len(),
        ),
{
    let active = active_fields(fields, fields.len() as int);
    lemma_selections_upto_len(active, active.len());
}

/// An attribute on a field, as `#[derive(Swizzle)]` sees it.
#[derive(Debug, Clone, PartialEq, Eq)]
pub enum SwizzleAttr {
    /// `#[swizzle(...)]`, with its arguments.
    Swizzle(AttrArgs),
    /// Any other attribute.
    Other,
}

/// The message for a `#[swizzle(...)]` whose argument is not one identifier.
pub open spec fn expected_ignore_text() -> Seq<char> {
    "expected `#[swizzle(ignore)]`"@
}

/// The message for `#[swizzle(<option>)]` with an option other than `ignore`.
pub open spec fn unknown_option_text(option: Seq<char>) -> Seq<char> {
    "unknown swizzle option `"@ + option + "`; expected `ignore`"@
}

/// Whether a field is left out, decided by its first `#[swizzle(...)]`
/// attribute: `ignore` leaves it out, any other identifier or argument is
/// an error; a field without one is kept.
pub open spec fn ignore_decision(attrs: Seq<SwizzleAttr>) -> Result<bool, Seq<char>>
    decreases attrs.len(),
{
    if attrs.len() == 0 {
        Ok(false)
    } else {
        match attrs[0] {
            SwizzleAttr::Other => ignore_decision(attrs.drop_first()),
            SwizzleAttr::Swizzle(args) => match args {
                AttrArgs::Ident(x) => if x@ == "ignore"@ {
                    Ok(true)
                } else {
                    Err(unknown_option_text(x@))
                },
                _ => Err(expected_ignore_text()),
            },
        }
    }
}

/// Whether a field with these attributes is left out.
pub fn field_ignored(attrs: &Vec<SwizzleAttr>) -> (r: Result<bool, String>)
    ensures
        match ignore_decision(attrs@) {
            Ok(b) => r == Ok::<bool, String>(b),
            Err(m) => r matches Err(e) && e@ == m,
        },
{
    let mut i: usize = 0;
    assert(attrs@.skip(0) =~= attrs@);
    while i < attrs.len()
        invariant
            i <= attrs@.len(),
            ignore_decision(attrs@) == ignore_decision(attrs@.skip(i as int)),
        decreases attrs@.len() - i,
    {
        assert(attrs@.skip(i as int).drop_first() =~= attrs@.skip(i + 1));
        match &attrs[i] {
            SwizzleAttr::Other => {},
            SwizzleAttr::Swizzle(args) => {
                return match args {
                    AttrArgs::Ident(x) => {
                        proof {
                            reveal_strlit("ignore");
                        }
                        if crate::text::same_chars(&crate::text::chars_of(x.as_str()), &crate::text::chars_of("ignore")) {
                            Ok(true)
                        } else {
                            let mut m = String::from_str("unknown swizzle option `");
                            push_str(&mut m, x.as_str());
                            push_str(&mut m, "`; expected `ignore`");
                            Err(m)
                        }
                    },
                    _ => Err(String::from_str("expected `#[swizzle(ignore)]`")),
                };
            },
        }
        i = i + 1;
    }
    assert(attrs@.skip(attrs@.len() as int) =~= Seq::<SwizzleAttr>::empty());
    Ok(false)
}

/// A named field and its attributes.
#[derive(Debug, Clone)]
pub struct SwizzleField {
    pub name: String,
    pub attrs: Vec<SwizzleAttr>,
}

/// One generated accessor: its name and the positions of the fields it
/// returns, in order.
#[derive(Debug, Clone)]
pub struct SwizzleMethod {
    pub name: String,
    pub fields: Vec<usize>,
}

/// The error of the first field whose swizzle attribute is malformed.
pub open spec fn first_field_error(fields: Seq<SwizzleField>) -> Option<Seq<char>>
    decreases fields.len(),
{
    if fields.len() == 0 {
        None
    } else {
        match ignore_decision(fields[0].attrs@) {
            Err(m) => Some(m),
            Ok(_) => first_field_error(fields.drop_first()),
        }
    }
}

/// Positions below `k` of the fields that take part (not ignored).
pub open spec fn active_fields(fields: Seq<SwizzleField>, k: int) -> Seq<usize>
    decreases k,
{
    if k <= 0 {
        Seq::empty()
    } else {
        active_fields(fields, k - 1) + if ignore_decision(fields[k - 1].attrs@) == Ok::<bool, Seq<char>>(false) {
            seq![(k - 1) as usize]
        } else {
            Seq::empty()
        }
    }
}

/// The names of the fields at positions `p`, concatenated.
pub open spec fn joined_names(fields: Seq<SwizzleField>, p: Seq<usize>) -> Seq<char>
    decreases p.len(),
{
    if p.len() == 0 {
        Seq::empty()
    } else {
        joined_names(fields, p.drop_last()) + fields[p.last() as int].name@
    }
}

/// Selections of the active fields of every length from 1 to `m`, shortest first.
pub open spec fn selections_upto(active: Seq<usize>, m: nat) -> Seq<Seq<usize>>
    decreases m,
{
    if m == 0 {
        Seq::empty()
    } else {
        selections_upto(active, (m - 1) as nat) + selections(active, m)
    }
}

/// The accessors generated for `fields`: one per selection of the active
/// fields, of every length up to their number, as (name, positions).
pub open spec fn swizzle_plan(fields: Seq<SwizzleField>) -> Seq<(Seq<char>, Seq<usize>)> {
    let active = active_fields(fields, fields.len() as int);
    selections_upto(active, active.len()).map_values(|p: Seq<usize>| (joined_names(fields, p), p))
}

/// Why `#[derive(Swizzle)]` refuses an item of this shape, if it does.
pub open spec fn swizzle_shape_error(shape: ItemShape) -> Option<Seq<char>> {
    match shape {
        ItemShape::NamedStruct => None,
        ItemShape::TupleStruct => Some("#[derive(Swizzle)] requires a struct with named fields"@),
        ItemShape::UnitStruct => Some("#[derive(Swizzle)] requires a struct with named fields"@),
        ItemShape::Enum => Some("#[derive(Swizzle)] cannot be applied to enums"@),
        ItemShape::Union => Some("#[derive(Swizzle)] cannot be applied to unions"@),
    }
}

fn joined(fields: &Vec<SwizzleField>, p: &Vec<usize>) -> (r: String)
    requires
        forall|t: int| 0 <= t < p@.len() ==> #[trigger] p@[t] < fields@.len(),
    ensures
        r@ == joined_names(fields@, p@),
{
    let mut r = String::new();
    let mut i: usize = 0;
    while i < p.len()
        invariant
            i <= p@.len(),
            forall|t: int| 0 <= t < p@.len() ==> #[trigger] p@[t] < fields@.len(),
            r@ == joined_names(fields@, p@.take(i as int)),
        decreases p@.len() - i,
    {
        assert(p@.take(i + 1).drop_last() =~= p@.take(i as int));
        push_str(&mut r, fields[p[i]].name.as_str());
        i = i + 1;
    }
    assert(p@.take(p@.len() as int) =~= p@);
    r
}

/// What `#[derive(Swizzle)]` generates for an item: the accessors, or the
/// message it is refused with. Only structs with named fields are accepted;
/// the first malformed `#[swizzle]` attribute is reported; ignored fields
/// take no part; without any field left nothing is generated.
pub fn swizzle_methods(shape: ItemShape, fields: &Vec<SwizzleField>) -> (r: Result<Vec<SwizzleMethod>, String>)
    ensures
        match swizzle_shape_error(shape) {
            Some(m) => r matches Err(e) && e@ == m,
            None => match first_field_error(fields@) {
                Some(m) => r matches Err(e) && e@ == m,
                None => r matches Ok(ms) && ms@.map_values(|x: SwizzleMethod| (x.name@, x.fields@)) == swizzle_plan(
                    fields@,
                ),
            },
        },
{
    match shape {
        ItemShape::NamedStruct => {},
        ItemShape::TupleStruct | ItemShape::UnitStruct => {
            return Err(String::from_str("#[derive(Swizzle)] requires a struct with named fields"));
        },
        ItemShape::Enum => {
            return Err(String::from_str("#[derive(Swizzle)] cannot be applied to enums"));
        },
        ItemShape::Union => {
            return Err(String::from_str("#[derive(Swizzle)] cannot be applied to unions"));
        },
    }
    let mut active: Vec<usize> = Vec::new();
    let mut i: usize = 0;
    assert(fields@.skip(0) =~= fields@);
    while i < fields.len()
        invariant
            i <= fields@.len(),
            swizzle_shape_error(shape) is None,
            first_field_error(fields@) == first_field_error(fields@.skip(i as int)),
            active@ == active_fields(fields@, i as int),
            forall|t: int| 0 <= t < active@.len() ==> #[trigger] active@[t] < i,
        decreases fields@.len() - i,
    {
        assert(fields@.skip(i as int).drop_first() =~= fields@.skip(i + 1));
        assert(fields@.skip(i as int)[0] == fields@[i as int]);
        match field_ignored(&fields[i].attrs) {
            Err(m) => {
                return Err(m);
            },
            Ok(ignored) => {
                if !ignored {
                    active.push(i);
                }
            },
        }
        i = i + 1;
    }
    let n = active.len();
    let ghost fv = fields@;
    let ghost av = active@;
    let mut out: Vec<SwizzleMethod> = Vec::new();
    let mut length: usize = 0;
    while length < n
        invariant
            length <= n,
            n == av.len(),
            av == active@,
            av == active_fields(fv, fv.len() as int),
            fv == fields@,
            forall|t: int| 0 <= t < av.len() ==> #[trigger] av[t] < fv.len(),
            out@.map_values(|x: SwizzleMethod| (x.name@, x.fields@)) == selections_upto(
                av,
                length as nat,
            ).map_values(|p: Seq<usize>| (joined_names(fv, p), p)),
        decreases n - length,
    {
        length = length + 1;
        let sels = permutations_with_repetition(active.as_slice(), length);
        let ghost sv = sels@.map_values(|v: Vec<usize>| v@);
        let ghost start = out@.map_values(|x: SwizzleMethod| (x.name@, x.fields@));
        let mut k: usize = 0;
        while k < sels.len()
            invariant
                k <= sels@.len(),
                sv == sels@.map_values(|v: Vec<usize>| v@),
                sv == selections(av, length as nat),
                fv == fields@,
                forall|t: int| 0 <= t < av.len() ==> #[trigger] av[t] < fv.len(),
                out@.map_values(|x: SwizzleMethod| (x.name@, x.fields@)) == start + sv.take(k as int).map_values(
                    |p: Seq<usize>| (joined_names(fv, p), p),
                ),
            decreases sels@.len() - k,
        {
            proof {
                lemma_selection_members(av, length as nat, k as int);
                assert forall|t: int| 0 <= t < sels@[k as int]@.len() implies #[trigger] sels@[k as int]@[t] < fv.len() by {
                    assert(sv[k as int] == sels@[k as int]@);
                    assert(av.contains(sv[k as int][t]));
                }
            }
            let name = joined(fields, &sels[k]);
            let mut picked: Vec<usize> = Vec::new();
            let mut t: usize = 0;
            while t < sels[k].len()
                invariant
                    k < sels@.len(),
                    t <= sels@[k as int]@.len(),
                    picked@ == sels@[k as int]@.take(t as int),
                decreases sels@[k as int]@.len() - t,
            {
                picked.push(sels[k][t]);
                t = t + 1;
                assert(picked@ =~= sels@[k as int]@.take(t as int));
            }
            assert(picked@ =~= sels@[k as int]@);
            let ghost before = out@.map_values(|x: SwizzleMethod| (x.name@, x.fields@));
            out.push(SwizzleMethod { name, fields: picked });
            assert(out@.map_values(|x: SwizzleMethod| (x.name@, x.fields@)) =~= before.push(
                (joined_names(fv, sv[k as int]), sv[k as int]),
            ));
            assert(sv.take(k + 1).map_values(|p: Seq<usize>| (joined_names(fv, p), p)) =~= sv.take(
                k as int,
            ).map_values(|p: Seq<usize>| (joined_names(fv, p), p)).push(
                (joined_names(fv, sv[k as int]), sv[k as int]),
            ));
            k = k + 1;
        }
        assert(sv.take(sels@.len() as int) =~= sv);
        assert(selections_upto(av, length as nat).map_values(|p: Seq<usize>| (joined_names(fv, p), p))
            =~= selections_upto(av, (length - 1) as nat).map_values(|p: Seq<usize>| (joined_names(fv, p), p))
            + selections(av, length as nat).map_values(|p: Seq<usize>| (joined_names(fv, p), p)));
    }
    Ok(out)
}

} // verus!
