//! Character-level helpers shared by the parsers and formatters.
use vstd::prelude::*;
use vstd::std_specs::iter::IteratorSpec;

verus! {

broadcast use vstd::string::group_string_axioms;

/// Appends one character to a string (std `String::push`).
#[verifier::external_body]
pub(crate) fn push_char(s: &mut String, c: char)
    ensures
        final(s)@ == old(s)@.push(c),
{
    s.push(c);
}

/// The characters of `s`, in order.
pub fn chars_of(s: &str) -> (v: Vec<char>)
    ensures
        v@ == s@,
{
    let mut it = s.chars();
    let mut v: Vec<char> = Vec::new();
    loop
        invariant
            v@ + it.remaining() == s@,
            it.decrease() is Some,
        ensures
            v@ == s@,
        decreases it.decrease()->0,
    {
        match it.next() {
            Some(c) => {
                v.push(c);
            },
            None => {
                break ;
            },
        }
    }
    v
}


/// A string holding exactly the characters of `v`.
pub fn string_of(v: &Vec<char>) -> (r: String)
    ensures
        r@ == v@,
{
    let mut r = String::new();
    let mut i: usize = 0;
    while i < v.len()
        invariant
            i <= v.len(),
            r@ == v@.subrange(0, i as int),
        decreases v.len() - i,
    {
        push_char(&mut r, v[i]);
        i = i + 1;
        assert(r@ =~= v@.subrange(0, i as int));
    }
    assert(v@.subrange(0, v.len() as int) =~= v@);
    r
}

/// The decimal digit character for `d < 10`.
pub open spec fn digit_char(d: nat) -> char {
    (('0' as nat) + d) as char
}

/// The decimal numeral of `n`, without sign or leading zeros.
pub open spec fn decimal(n: nat) -> Seq<char>
    decreases n,
{
    if n < 10 {
        seq![digit_char(n)]
    } else {
        decimal(n / 10).push(digit_char(n % 10))
    }
}

fn digit_of(d: u64) -> (c: char)
    requires
        d < 10,
    ensures
        c == digit_char(d as nat),
{
    if d == 0 { '0' }
    else if d == 1 { '1' }
    else if d == 2 { '2' }
    else if d == 3 { '3' }
    else if d == 4 { '4' }
    else if d == 5 { '5' }
    else if d == 6 { '6' }
    else if d == 7 { '7' }
    else if d == 8 { '8' }
    else { '9' }
}

/// The decimal numeral of `n` (what `n.to_string()` gives).
pub fn decimal_string(n: u64) -> (r: String)
    ensures
        r@ == decimal(n as nat),
{
    let v = decimal_chars(n);
    string_of(&v)
}

fn decimal_chars(n: u64) -> (v: Vec<char>)
    ensures
        v@ == decimal(n as nat),
    decreases n,
{
    if n < 10 {
        let mut v: Vec<char> = Vec::new();
        v.push(digit_of(n));
        assert(v@ =~= seq![digit_char(n as nat)]);
        v
    } else {
        let mut v = decimal_chars(n / 10);
        v.push(digit_of(n % 10));
        v
    }
}

/// Appends `extra` to `r`.
pub fn push_str(r: &mut String, extra: &str)
    ensures
        final(r)@ == old(r)@ + extra@,
{
    r.append(extra);
}


/// An ASCII decimal digit.
pub open spec fn is_digit(c: char) -> bool {
    '0' <= c && c <= '9'
}

/// The value of a string of decimal digits.
pub open spec fn digits_value(s: Seq<char>) -> nat
    decreases s.len(),
{
    if s.len() == 0 {
        0
    } else {
        digits_value(s.drop_last()) * 10 + ((s.last() as nat) - ('0' as nat)) as nat
    }
}

/// The digits after an optional leading `+`.
pub open spec fn unsigned_body(s: Seq<char>) -> Seq<char> {
    if s.len() > 0 && s[0] == '+' {
        s.drop_first()
    } else {
        s
    }
}

/// What `str::parse::<u64>` accepts: an optional `+`, then one or more
/// decimal digits whose value fits in 64 bits.
pub open spec fn parse_u64_spec(s: Seq<char>) -> Option<u64> {
    let body = unsigned_body(s);
    if body.len() > 0 && (forall|i: int| 0 <= i < body.len() ==> is_digit(#[trigger] body[i]))
        && digits_value(body) <= u64::MAX {
        Some(digits_value(body) as u64)
    } else {
        None
    }
}

proof fn lemma_digits_value_monotone(s: Seq<char>, k: int)
    requires
        0 <= k <= s.len(),
        forall|i: int| 0 <= i < s.len() ==> is_digit(#[trigger] s[i]),
    ensures
        digits_value(s.subrange(0, k)) <= digits_value(s),
    decreases s.len() - k,
{
    if k < s.len() {
        lemma_digits_value_monotone(s, k + 1);
        assert(s.subrange(0, k + 1).drop_last() =~= s.subrange(0, k));
    } else {
        assert(s.subrange(0, k) =~= s);
    }
}

/// Parses a decimal `u64` the way `str::parse::<u64>` does.
pub fn parse_u64(s: &str) -> (r: Option<u64>)
    ensures
        r == parse_u64_spec(s@),
{
    let cs = chars_of(s);
    let start: usize = if cs.len() > 0 && cs[0] == '+' { 1 } else { 0 };
    let ghost body = unsigned_body(s@);
    assert(body =~= cs@.subrange(start as int, cs@.len() as int));
    if start >= cs.len() {
        return None;
    }
    let mut acc: u64 = 0;
    let mut i: usize = start;
    while i < cs.len()
        invariant
            start <= i <= cs.len(),
            cs@ == s@,
            body == unsigned_body(s@),
            body == cs@.subrange(start as int, cs@.len() as int),
            forall|j: int| 0 <= j < i - start ==> is_digit(#[trigger] body[j]),
            acc as nat == digits_value(body.subrange(0, i - start)),
        decreases cs.len() - i,
    {
        let c = cs[i];
        if !('0' <= c && c <= '9') {
            assert(!is_digit(body[i - start]));
            return None;
        }
        let d: u64 = (c as u64) - ('0' as u64);
        assert(body.subrange(0, i + 1 - start).drop_last() =~= body.subrange(0, i - start));
        let next = match acc.checked_mul(10) {
            Some(m) => m.checked_add(d),
            None => None,
        };
        match next {
            Some(n) => {
                acc = n;
            },
            None => {
                proof {
                    if forall|j: int| 0 <= j < body.len() ==> is_digit(#[trigger] body[j]) {
                        lemma_digits_value_monotone(body, i + 1 - start);
                    }
                }
                return None;
            },
        }
        i = i + 1;
    }
    assert(body.subrange(0, cs.len() - start) =~= body);
    Some(acc)
}


/// Index of the first `c` in `s` at or after `k`, or -1.
pub open spec fn find_char_from(s: Seq<char>, c: char, k: int) -> int
    decreases s.len() - k,
{
    if k < 0 || k >= s.len() {
        -1
    } else if s[k] == c {
        k
    } else {
        find_char_from(s, c, k + 1)
    }
}

/// Position of the first `c` in `s` (what `str::find(c)` gives).
pub open spec fn find_char_spec(s: Seq<char>, c: char) -> Option<nat> {
    let p = find_char_from(s, c, 0);
    if p < 0 {
        None
    } else {
        Some(p as nat)
    }
}

pub proof fn lemma_find_char_from_range(s: Seq<char>, c: char, k: int)
    requires
        0 <= k,
    ensures
        find_char_from(s, c, k) == -1 || (k <= find_char_from(s, c, k) < s.len() && s[find_char_from(s, c, k)] == c),
        find_char_from(s, c, k) == -1 ==> forall|j: int| k <= j < s.len() ==> s[j] != c,
        find_char_from(s, c, k) >= 0 ==> forall|j: int| k <= j < find_char_from(s, c, k) ==> s[j] != c,
    decreases s.len() - k,
{
    if k < s.len() && s[k] != c {
        lemma_find_char_from_range(s, c, k + 1);
    }
}

pub proof fn lemma_find_char_first(s: Seq<char>, c: char, k: int, p: int)
    requires
        0 <= k <= p <= s.len(),
        p == s.len() || s[p] == c,
        forall|j: int| k <= j < p ==> s[j] != c,
    ensures
        find_char_from(s, c, k) == (if p == s.len() { -1 } else { p }),
    decreases p - k,
{
    if k < p {
        lemma_find_char_first(s, c, k + 1, p);
    }
}

/// The pieces of `s` between occurrences of `c` (what `str::split(c)` yields).
pub open spec fn split_spec(s: Seq<char>, c: char) -> Seq<Seq<char>>
    decreases s.len(),
{
    let p = find_char_from(s, c, 0);
    if p < 0 || p >= s.len() {
        seq![s]
    } else {
        seq![s.subrange(0, p)] + split_spec(s.subrange(p + 1, s.len() as int), c)
    }
}

/// Position of the first `c` in `s`.
pub fn find_char(s: &Vec<char>, c: char) -> (r: Option<usize>)
    ensures
        r == (match find_char_spec(s@, c) {
            Some(p) => Some(p as usize),
            None => None::<usize>,
        }),
{
    let mut i: usize = 0;
    while i < s.len()
        invariant
            i <= s.len(),
            forall|j: int| 0 <= j < i ==> s@[j] != c,
        decreases s.len() - i,
    {
        if s[i] == c {
            proof {
                lemma_find_char_first(s@, c, 0, i as int);
            }
            return Some(i);
        }
        i = i + 1;
    }
    proof {
        lemma_find_char_first(s@, c, 0, s.len() as int);
    }
    None
}

/// Splits `s` at every `c`.
pub fn split_char(s: &Vec<char>, c: char) -> (r: Vec<Vec<char>>)
    ensures
        r@.map_values(|p: Vec<char>| p@) == split_spec(s@, c),
{
    let mut pieces: Vec<Vec<char>> = Vec::new();
    let mut cur: Vec<char> = Vec::new();
    let mut start: usize = 0;
    let mut i: usize = 0;
    assert(s@.subrange(0, s.len() as int) =~= s@);
    assert(pieces@.map_values(|p: Vec<char>| p@) =~= Seq::<Seq<char>>::empty());
    while i < s.len()
        invariant
            start <= i <= s.len(),
            cur@ == s@.subrange(start as int, i as int),
            forall|j: int| start <= j < i ==> s@[j] != c,
            pieces@.map_values(|p: Vec<char>| p@) + split_spec(s@.subrange(start as int, s.len() as int), c)
                == split_spec(s@, c),
        decreases s.len() - i,
    {
        let ghost rest = s@.subrange(start as int, s.len() as int);
        if s[i] == c {
            proof {
                lemma_find_char_first(rest, c, 0, i - start);
                assert(rest.subrange(0, i - start) =~= cur@);
                assert(rest.subrange(i - start + 1, rest.len() as int)
                    =~= s@.subrange(i + 1, s.len() as int));
            }
            let ghost old_pieces = pieces@.map_values(|p: Vec<char>| p@);
            pieces.push(cur);
            assert(pieces@.map_values(|p: Vec<char>| p@) =~= old_pieces.push(
                s@.subrange(start as int, i as int),
            ));
            cur = Vec::new();
            start = i + 1;
            assert(cur@ =~= s@.subrange(start as int, start as int));
        } else {
            cur.push(s[i]);
            assert(cur@ =~= s@.subrange(start as int, i + 1));
        }
        i = i + 1;
    }
    proof {
        let rest = s@.subrange(start as int, s.len() as int);
        lemma_find_char_first(rest, c, 0, rest.len() as int);
        assert(rest =~= cur@);
    }
    let ghost old_pieces = pieces@.map_values(|p: Vec<char>| p@);
    pieces.push(cur);
    assert(pieces@.map_values(|p: Vec<char>| p@) =~= old_pieces.push(
        s@.subrange(start as int, s.len() as int),
    ));
    pieces
}


/// `p` occurs in `s` starting at `i`.
pub open spec fn occurs_at(s: Seq<char>, p: Seq<char>, i: int) -> bool {
    0 <= i && i + p.len() <= s.len() && s.subrange(i, i + p.len()) == p
}

/// `p` occurs somewhere in `s` (what `str::contains` with a string pattern tests).
pub open spec fn contains_spec(s: Seq<char>, p: Seq<char>) -> bool {
    exists|i: int| occurs_at(s, p, i)
}

/// Whether `p` occurs in `s`.
pub fn contains_seq(s: &Vec<char>, p: &Vec<char>) -> (r: bool)
    ensures
        r == contains_spec(s@, p@),
{
    if p.len() > s.len() {
        return false;
    }
    let mut i: usize = 0;
    while i <= s.len() - p.len()
        invariant
            p.len() <= s.len(),
            i <= s.len() - p.len() + 1,
            forall|k: int| 0 <= k < i ==> !occurs_at(s@, p@, k),
        decreases s.len() - p.len() + 1 - i,
    {
        let mut j: usize = 0;
        let mut same = true;
        while j < p.len()
            invariant
                p.len() <= s.len(),
                i <= s.len() - p.len(),
                j <= p.len(),
                same == (forall|t: int| 0 <= t < j ==> s@[i + t] == p@[t]),
            decreases p.len() - j,
        {
            if s[i + j] != p[j] {
                same = false;
            }
            j = j + 1;
        }
        if same {
            assert(s@.subrange(i as int, i + p.len()) =~= p@);
            assert(occurs_at(s@, p@, i as int));
            return true;
        }
        proof {
            if occurs_at(s@, p@, i as int) {
                assert forall|t: int| 0 <= t < p.len() implies s@[i + t] == p@[t] by {
                    assert(s@.subrange(i as int, i + p.len())[t] == s@[i + t]);
                }
            }
        }
        i = i + 1;
    }
    false
}

/// `p` is a prefix of `s`.
pub open spec fn starts_with_spec(s: Seq<char>, p: Seq<char>) -> bool {
    p.len() <= s.len() && s.subrange(0, p.len() as int) == p
}

/// Whether `s` starts with `p`.
pub fn starts_with_seq(s: &Vec<char>, p: &Vec<char>) -> (r: bool)
    ensures
        r == starts_with_spec(s@, p@),
{
    if p.len() > s.len() {
        return false;
    }
    let mut j: usize = 0;
    while j < p.len()
        invariant
            p.len() <= s.len(),
            j <= p.len(),
            forall|t: int| 0 <= t < j ==> s@[t] == p@[t],
        decreases p.len() - j,
    {
        if s[j] != p[j] {
            assert(s@.subrange(0, p.len() as int)[j as int] != p@[j as int]);
            return false;
        }
        j = j + 1;
    }
    assert(s@.subrange(0, p.len() as int) =~= p@);
    true
}

/// ASCII letters folded to lower case; every other character unchanged.
pub open spec fn ascii_lower(c: char) -> char {
    if 'A' <= c && c <= 'Z' {
        ((c as nat) + 32) as char
    } else {
        c
    }
}

/// Equality up to ASCII case (what `str::eq_ignore_ascii_case` tests; on
/// characters this is the same as the byte-wise comparison std makes, since
/// folding leaves every non-ASCII byte unchanged).
pub open spec fn eq_ignore_ascii_case_spec(a: Seq<char>, b: Seq<char>) -> bool {
    a.len() == b.len() && forall|i: int| 0 <= i < a.len() ==> ascii_lower(#[trigger] a[i]) == ascii_lower(b[i])
}

fn lower_char(c: char) -> (r: char)
    ensures
        r == ascii_lower(c),
{
    if 'A' <= c && c <= 'Z' {
        let b = c as u8;
        (b + 32) as char
    } else {
        c
    }
}

/// Equality up to ASCII case.
pub fn eq_ignore_ascii_case(a: &Vec<char>, b: &Vec<char>) -> (r: bool)
    ensures
        r == eq_ignore_ascii_case_spec(a@, b@),
{
    if a.len() != b.len() {
        return false;
    }
    let mut i: usize = 0;
    while i < a.len()
        invariant
            a.len() == b.len(),
            i <= a.len(),
            forall|t: int| 0 <= t < i ==> ascii_lower(#[trigger] a@[t]) == ascii_lower(b@[t]),
        decreases a.len() - i,
    {
        if lower_char(a[i]) != lower_char(b[i]) {
            return false;
        }
        i = i + 1;
    }
    true
}


/// Whether two character vectors hold the same characters.
pub fn same_chars(a: &Vec<char>, b: &Vec<char>) -> (r: bool)
    ensures
        r == (a@ == b@),
{
    if a.len() != b.len() {
        return false;
    }
    let mut i: usize = 0;
    while i < a.len()
        invariant
            a.len() == b.len(),
            i <= a.len(),
            forall|t: int| 0 <= t < i ==> a@[t] == b@[t],
        decreases a.len() - i,
    {
        if a[i] != b[i] {
            return false;
        }
        i = i + 1;
    }
    assert(a@ =~= b@);
    true
}


/// The characters `s[from..to]`.
pub fn sub_chars(s: &Vec<char>, from: usize, to: usize) -> (r: Vec<char>)
    requires
        from <= to <= s.len(),
    ensures
        r@ == s@.subrange(from as int, to as int),
{
    let mut r: Vec<char> = Vec::new();
    let mut i = from;
    while i < to
        invariant
            from <= i <= to <= s.len(),
            r@ == s@.subrange(from as int, i as int),
        decreases to - i,
    {
        r.push(s[i]);
        i = i + 1;
        assert(r@ =~= s@.subrange(from as int, i as int));
    }
    r
}

/// Unicode `White_Space` (what `char::is_whitespace` tests).
pub open spec fn is_white_space(c: char) -> bool {
    let u = c as u32;
    (0x9 <= u && u <= 0xd) || u == 0x20 || u == 0x85 || u == 0xa0 || u == 0x1680
        || (0x2000 <= u && u <= 0x200a) || u == 0x2028 || u == 0x2029 || u == 0x202f
        || u == 0x205f || u == 0x3000
}

/// Whether `c` is white space.
pub fn white_space(c: char) -> (r: bool)
    ensures
        r == is_white_space(c),
{
    let u = c as u32;
    (0x9 <= u && u <= 0xd) || u == 0x20 || u == 0x85 || u == 0xa0 || u == 0x1680
        || (0x2000 <= u && u <= 0x200a) || u == 0x2028 || u == 0x2029 || u == 0x202f
        || u == 0x205f || u == 0x3000
}

/// `s` without its leading white space.
pub open spec fn trim_start_spec(s: Seq<char>) -> Seq<char>
    decreases s.len(),
{
    if s.len() > 0 && is_white_space(s[0]) {
        trim_start_spec(s.drop_first())
    } else {
        s
    }
}

/// `s` without its trailing white space.
pub open spec fn trim_end_spec(s: Seq<char>) -> Seq<char>
    decreases s.len(),
{
    if s.len() > 0 && is_white_space(s.last()) {
        trim_end_spec(s.drop_last())
    } else {
        s
    }
}

/// `s` without leading and trailing white space (what `str::trim` gives).
pub open spec fn trim_spec(s: Seq<char>) -> Seq<char> {
    trim_end_spec(trim_start_spec(s))
}

proof fn lemma_trim_start_at(s: Seq<char>, i: int)
    requires
        0 <= i <= s.len(),
        forall|k: int| 0 <= k < i ==> is_white_space(#[trigger] s[k]),
        i == s.len() || !is_white_space(s[i]),
    ensures
        trim_start_spec(s) == s.subrange(i, s.len() as int),
    decreases i,
{
    if i == 0 {
        assert(s.subrange(0, s.len() as int) =~= s);
    } else {
        assert(is_white_space(s[0]));
        let t = s.drop_first();
        assert forall|k: int| 0 <= k < i - 1 implies is_white_space(#[trigger] t[k]) by {
            assert(t[k] == s[k + 1]);
        }
        lemma_trim_start_at(t, i - 1);
        assert(t.subrange(i - 1, t.len() as int) =~= s.subrange(i, s.len() as int));
    }
}

proof fn lemma_trim_end_at(s: Seq<char>, j: int)
    requires
        0 <= j <= s.len(),
        forall|k: int| j <= k < s.len() ==> is_white_space(#[trigger] s[k]),
        j == 0 || !is_white_space(s[j - 1]),
    ensures
        trim_end_spec(s) == s.subrange(0, j),
    decreases s.len() - j,
{
    if j == s.len() {
        assert(s.subrange(0, j) =~= s);
    } else {
        assert(is_white_space(s.last()));
        let t = s.drop_last();
        assert forall|k: int| j <= k < t.len() implies is_white_space(#[trigger] t[k]) by {
            assert(t[k] == s[k]);
        }
        lemma_trim_end_at(t, j);
        assert(t.subrange(0, j) =~= s.subrange(0, j));
    }
}

/// `s` without leading and trailing white space.
pub fn trim_chars(s: &Vec<char>) -> (r: Vec<char>)
    ensures
        r@ == trim_spec(s@),
{
    let mut i: usize = 0;
    while i < s.len() && white_space(s[i])
        invariant
            i <= s.len(),
            forall|k: int| 0 <= k < i ==> is_white_space(#[trigger] s@[k]),
        decreases s.len() - i,
    {
        i = i + 1;
    }
    proof {
        lemma_trim_start_at(s@, i as int);
    }
    let mut j: usize = s.len();
    while j > i && white_space(s[j - 1])
        invariant
            i <= j <= s.len(),
            forall|k: int| j <= k < s.len() ==> is_white_space(#[trigger] s@[k]),
        decreases j,
    {
        j = j - 1;
    }
    proof {
        let t = s@.subrange(i as int, s.len() as int);
        assert forall|k: int| j - i <= k < t.len() implies is_white_space(#[trigger] t[k]) by {
            assert(t[k] == s@[i + k]);
        }
        if j > i {
            assert(t[j - i - 1] == s@[j - 1]);
        }
        lemma_trim_end_at(t, j - i);
        assert(t.subrange(0, j - i) =~= s@.subrange(i as int, j as int));
    }
    sub_chars(s, i, j)
}


fn digit_of_u128(d: u128) -> (c: char)
    requires
        d < 10,
    ensures
        c == digit_char(d as nat),
{
    digit_of(d as u64)
}

fn decimal_chars_u128(n: u128) -> (v: Vec<char>)
    ensures
        v@ == decimal(n as nat),
    decreases n,
{
    if n < 10 {
        let mut v: Vec<char> = Vec::new();
        v.push(digit_of_u128(n));
        assert(v@ =~= seq![digit_char(n as nat)]);
        v
    } else {
        let mut v = decimal_chars_u128(n / 10);
        v.push(digit_of_u128(n % 10));
        v
    }
}

/// An integer in decimal, with a leading `-` when negative (what
/// `to_string` gives for a signed integer).
pub open spec fn signed_decimal(i: int) -> Seq<char> {
    if i < 0 {
        "-"@ + decimal((-i) as nat)
    } else {
        decimal(i as nat)
    }
}

/// The decimal numeral of `n`, signed.
pub fn signed_decimal_string(n: i128) -> (r: String)
    ensures
        r@ == signed_decimal(n as int),
{
    if n < 0 {
        let magnitude: u128 = ((-(n + 1)) as u128) + 1;
        let mut r = String::from_str("-");
        let v = decimal_chars_u128(magnitude);
        let digits = string_of(&v);
        push_str(&mut r, digits.as_str());
        r
    } else {
        let v = decimal_chars_u128(n as u128);
        string_of(&v)
    }
}

/// A non-empty string of decimal digits whose value fits an `i128` (what
/// `str::parse::<i128>` accepts among strings of digits), and that value.
pub open spec fn digits_i128(s: Seq<char>) -> Option<i128> {
    if s.len() > 0 && (forall|i: int| 0 <= i < s.len() ==> is_digit(#[trigger] s[i])) && digits_value(s)
        <= i128::MAX {
        Some(digits_value(s) as i128)
    } else {
        None
    }
}

/// The value of a string of decimal digits, if it fits an `i128`.
pub fn parse_digits_i128(s: &str) -> (r: Option<i128>)
    ensures
        r == digits_i128(s@),
{
    let cs = chars_of(s);
    if cs.len() == 0 {
        return None;
    }
    let mut acc: u128 = 0;
    let mut i: usize = 0;
    while i < cs.len()
        invariant
            i <= cs.len(),
            cs@ == s@,
            forall|j: int| 0 <= j < i ==> is_digit(#[trigger] cs@[j]),
            acc as nat == digits_value(cs@.subrange(0, i as int)),
            acc <= i128::MAX,
        decreases cs.len() - i,
    {
        let c = cs[i];
        if !('0' <= c && c <= '9') {
            assert(!is_digit(cs@[i as int]));
            return None;
        }
        let d: u128 = (c as u128) - ('0' as u128);
        assert(cs@.subrange(0, i + 1).drop_last() =~= cs@.subrange(0, i as int));
        let next = match acc.checked_mul(10) {
            Some(m) => m.checked_add(d),
            None => None,
        };
        match next {
            Some(n) if n <= 0x7fff_ffff_ffff_ffff_ffff_ffff_ffff_ffff => {
                acc = n;
            },
            _ => {
                proof {
                    if forall|j: int| 0 <= j < cs@.len() ==> is_digit(#[trigger] cs@[j]) {
                        lemma_digits_value_monotone(cs@, i + 1);
                    }
                }
                return None;
            },
        }
        i = i + 1;
    }
    assert(cs@.subrange(0, cs.len() as int) =~= cs@);
    Some(acc as i128)
}

} // verus!
