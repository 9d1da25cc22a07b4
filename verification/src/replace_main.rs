//! Replaces the line that opens the shader's `mainImage` function by the
//! opening of a compute entry point.

use vstd::prelude::*;
use crate::nom_helpers::{
    class_end, in_class, lead_len, lemma_lead_len, parsed, take_class1, CharClass, ParseError, ParserResult,
};
use crate::text::{
    find_first, find_from, is_alphanumeric, lemma_find_first, push_range, starts_with, starts_with_at,
    suffix, to_chars,
};

verus! {

/// The characters of a type name: alphanumeric characters, `_`, `<` and `>`.
pub fn identifier_type_pred(ch: char) -> (r: bool)
    ensures
        r == in_class(CharClass::IdentType, ch),
{
    is_alphanumeric(ch) || ch == '_' || ch == '<' || ch == '>'
}

/// Reads a type name (a non-empty run of alphanumeric characters, `_`, `<`
/// and `>`).
pub fn anychar_type(i: &str) -> (r: ParserResult<String>)
    ensures
        lead_len(i@, CharClass::IdentType) == 0 ==> r is Err,
        lead_len(i@, CharClass::IdentType) > 0 ==> parsed(
            r,
            i@.skip(lead_len(i@, CharClass::IdentType) as int),
            i@.take(lead_len(i@, CharClass::IdentType) as int),
        ),
{
    take_class1(i, CharClass::IdentType)
}

/// The text that opens the compute entry point.
pub open spec fn update_init() -> Seq<char> {
    "[[stage(compute), workgroup_size(8, 8, 1)]]\nfn update([[builtin(global_invocation_id)]] invocation_id: vec3<u32>) {\n    let R: vec2<f32> = uni.iResolution.xy;\n    let y_inverted_location = vec2<i32>(i32(invocation_id.x), i32(R.y) - i32(invocation_id.y));\n    let location = vec2<i32>(i32(invocation_id.x), i32(invocation_id.y));\n    "@
}

/// A parameter `name: type` at the start of `s`: how many characters it takes
/// and its name.
pub open spec fn var_and_type(s: Seq<char>) -> Option<(nat, Seq<char>)> {
    let a = lead_len(s, CharClass::IdentNum);
    let b = lead_len(s.skip(a + 2int), CharClass::IdentType);
    if a > 0 && starts_with(s.skip(a as int), ": "@) && b > 0 {
        Some((a + 2 + b, s.take(a as int)))
    } else {
        None
    }
}

/// The parameters that follow the first one, each after `, `: how many
/// characters they take and their names.
pub open spec fn more_vars(s: Seq<char>) -> (nat, Seq<Seq<char>>)
    decreases s.len(),
{
    if starts_with(s, ", "@) {
        match var_and_type(s.skip(2)) {
            Some((n, v)) => if 2 + n <= s.len() {
                let (m, vs) = more_vars(s.skip(2 + n as int));
                (2 + n + m, seq![v] + vs)
            } else {
                (0, Seq::empty())
            },
            None => (0, Seq::empty()),
        }
    } else {
        (0, Seq::empty())
    }
}

/// The parameter list of `mainImage` and the `) -> () {` that closes it: how
/// many characters they take and the parameters' names.
pub open spec fn main_vars(s: Seq<char>) -> Option<(nat, Seq<Seq<char>>)> {
    match var_and_type(s) {
        Some((n, v)) => {
            let (m, vs) = more_vars(s.skip(n as int));
            if starts_with(s.skip(n + m as int), ") -> () {"@) {
                Some((n + m + ") -> () {"@.len(), seq![v] + vs))
            } else {
                None
            }
        },
        None => None,
    }
}

/// The opening of the entry point, with variables for the first two
/// parameters of `mainImage`.
pub open spec fn main_header(vars: Seq<Seq<char>>) -> Seq<char> {
    update_init() + (if vars.len() > 0 {
        "\n\tvar "@ + vars[0] + ": vec4<f32>;"@
    } else {
        Seq::empty()
    }) + (if vars.len() > 1 {
        "\n\tvar "@ + vars[1] + " = vec2<f32>(f32(location.x), f32(location.y) );\n"@
    } else {
        Seq::empty()
    })
}

/// `s` with its first `fn mainImage(...) -> () {` line replaced by the
/// opening of the entry point; `None` where the first `fn mainImage(` is not
/// followed by such a parameter list.
pub open spec fn replaced_main(s: Seq<char>) -> Option<Seq<char>> {
    match find_first(s, "fn mainImage("@) {
        Some(p) => match main_vars(s.skip(p + "fn mainImage("@.len() as int)) {
            Some((n, vars)) => Some(
                s.take(p as int) + main_header(vars) + s.skip(p + "fn mainImage("@.len() + n as int),
            ),
            None => None,
        },
        None => None,
    }
}

/// Reads up to the first `fn mainImage(` and gives the text before it.
pub fn replace_main(i: &str) -> (r: ParserResult<String>)
    ensures
        match find_first(i@, "fn mainImage("@) {
            Some(p) => parsed(r, i@.skip(p + "fn mainImage("@.len() as int), i@.take(p as int)),
            None => r is Err,
        },
{
    let s = to_chars(i);
    let pat = to_chars("fn mainImage(");
    assert(s@.skip(0) =~= s@);
    match find_from(&s, 0, &pat) {
        Some(k) => {
            let mut out = String::new();
            push_range(&mut out, &s, 0, k);
            assert(s@.subrange(0, k as int) =~= s@.take(k as int));
            Ok((suffix(i, k + pat.len()), out))
        },
        None => Err(ParseError::Mismatch),
    }
}

fn var_at(s: &Vec<char>, pos: usize) -> (r: Option<(usize, usize)>)
    requires
        pos <= s.len(),
    ensures
        match var_and_type(s@.skip(pos as int)) {
            Some((n, v)) => r matches Some((e, m)) && e == pos + n && pos < m <= e <= s.len() && v
                == s@.subrange(pos as int, m as int),
            None => r is None,
        },
{
    let ghost t = s@.skip(pos as int);
    let a = class_end(s, pos, CharClass::IdentNum);
    let colon = to_chars(": ");
    proof {
        reveal_strlit(": ");
        assert(t.skip(a - pos) =~= s@.skip(a as int));
    }
    if a == pos || !starts_with_at(s, a, &colon) {
        return None;
    }
    let b = class_end(s, a + 2, CharClass::IdentType);
    assert(t.skip(a - pos + 2) =~= s@.skip(a + 2));
    if b == a + 2 {
        return None;
    }
    assert(t.take(a - pos) =~= s@.subrange(pos as int, a as int));
    Some((b, a))
}

fn main_vars_at(s: &Vec<char>, pos: usize) -> (r: Option<(usize, Vec<String>)>)
    requires
        pos <= s.len(),
    ensures
        match main_vars(s@.skip(pos as int)) {
            Some((n, vs)) => r matches Some((e, out)) && e == pos + n && e <= s.len() && out@.len()
                == vs.len() && forall|j: int| 0 <= j < vs.len() ==> (#[trigger] out@[j])@ == vs[j],
            None => r is None,
        },
{
    let (n0, m0) = match var_at(s, pos) {
        Some(x) => x,
        None => return None,
    };
    let ghost t = s@.skip(pos as int);
    assert(t.skip(n0 - pos) =~= s@.skip(n0 as int));
    let mut first = String::new();
    push_range(&mut first, s, pos, m0);
    let mut out: Vec<String> = Vec::new();
    out.push(first);
    let ghost mut views: Seq<Seq<char>> = seq![s@.subrange(pos as int, m0 as int)];
    let sep = to_chars(", ");
    proof {
        reveal_strlit(", ");
    }
    let mut k = n0;
    loop
        invariant
            n0 <= k <= s.len(),
            sep@ == ", "@,
            sep@.len() == 2,
            out@.len() == views.len(),
            forall|j: int| 0 <= j < views.len() ==> (#[trigger] out@[j])@ == views[j],
            more_vars(s@.skip(n0 as int)).0 == (k - n0) + more_vars(s@.skip(k as int)).0,
            seq![s@.subrange(pos as int, m0 as int)] + more_vars(s@.skip(n0 as int)).1 == views
                + more_vars(s@.skip(k as int)).1,
        ensures
            n0 <= k <= s.len(),
            out@.len() == views.len(),
            forall|j: int| 0 <= j < views.len() ==> (#[trigger] out@[j])@ == views[j],
            more_vars(s@.skip(n0 as int)).0 == k - n0,
            seq![s@.subrange(pos as int, m0 as int)] + more_vars(s@.skip(n0 as int)).1 == views,
        decreases s.len() - k,
    {
        let ghost u = s@.skip(k as int);
        if !starts_with_at(s, k, &sep) {
            assert(views + Seq::<Seq<char>>::empty() =~= views);
            break;
        }
        assert(u.skip(2) =~= s@.skip(k + 2));
        match var_at(s, k + 2) {
            Some((e, m)) => {
                assert(u.skip(e - k) =~= s@.skip(e as int));
                let mut v = String::new();
                push_range(&mut v, s, k + 2, m);
                out.push(v);
                proof {
                    let ghost vw = s@.subrange((k + 2) as int, m as int);
                    assert(views.push(vw) + more_vars(s@.skip(e as int)).1 =~= views + (seq![vw]
                        + more_vars(s@.skip(e as int)).1));
                    views = views.push(vw);
                }
                k = e;
            },
            None => {
                assert(views + Seq::<Seq<char>>::empty() =~= views);
                break;
            },
        }
    }
    let close = to_chars(") -> () {");
    assert(t.skip(k - pos) =~= s@.skip(k as int));
    if starts_with_at(s, k, &close) {
        Some((k + close.len(), out))
    } else {
        None
    }
}

/// Reads one parameter `name: type` and gives its name.
pub fn parse_var_and_type(i: &str) -> (r: ParserResult<String>)
    ensures
        match var_and_type(i@) {
            Some((n, v)) => parsed(r, i@.skip(n as int), v),
            None => r is Err,
        },
{
    let s = to_chars(i);
    assert(s@.skip(0) =~= s@);
    match var_at(&s, 0) {
        Some((e, m)) => {
            let mut out = String::new();
            push_range(&mut out, &s, 0, m);
            Ok((suffix(i, e), out))
        },
        None => Err(ParseError::Mismatch),
    }
}

/// Reads the parameter list of `mainImage`, up to and with the `) -> () {`
/// that closes it, and gives the parameters' names.
pub fn replace_main_vars(i: &str) -> (r: ParserResult<Vec<String>>)
    ensures
        match main_vars(i@) {
            Some((n, vs)) => r matches Ok((rest, out)) && rest@ == i@.skip(n as int) && out@.len()
                == vs.len() && forall|j: int| 0 <= j < vs.len() ==> (#[trigger] out@[j])@ == vs[j],
            None => r is Err,
        },
{
    let s = to_chars(i);
    assert(s@.skip(0) =~= s@);
    match main_vars_at(&s, 0) {
        Some((e, out)) => Ok((suffix(i, e), out)),
        None => Err(ParseError::Mismatch),
    }
}

/// Replaces the first `fn mainImage(...) -> () {` line by the opening of the
/// compute entry point, which declares the first parameter as a `vec4<f32>`
/// variable and the second as the pixel's position. Where that line is not
/// found, the text is given back unchanged and nothing is read.
pub fn replace_main_line(i: &str) -> (r: ParserResult<String>)
    ensures
        match replaced_main(i@) {
            Some(t) => parsed(r, Seq::empty(), t),
            None => parsed(r, i@, i@),
        },
{
    let s = to_chars(i);
    let pat = to_chars("fn mainImage(");
    assert(s@.skip(0) =~= s@);
    let found = find_from(&s, 0, &pat);
    if let Some(k) = found {
        if let Some((e, vars)) = main_vars_at(&s, k + pat.len()) {
            let mut out = String::new();
            push_range(&mut out, &s, 0, k);
            out.append("[[stage(compute), workgroup_size(8, 8, 1)]]\nfn update([[builtin(global_invocation_id)]] invocation_id: vec3<u32>) {\n    let R: vec2<f32> = uni.iResolution.xy;\n    let y_inverted_location = vec2<i32>(i32(invocation_id.x), i32(R.y) - i32(invocation_id.y));\n    let location = vec2<i32>(i32(invocation_id.x), i32(invocation_id.y));\n    ");
            if vars.len() > 0 {
                out.append("\n\tvar ");
                out.append(vars[0].as_str());
                out.append(": vec4<f32>;");
            }
            if vars.len() > 1 {
                out.append("\n\tvar ");
                out.append(vars[1].as_str());
                out.append(" = vec2<f32>(f32(location.x), f32(location.y) );\n");
            }
            push_range(&mut out, &s, e, s.len());
            proof {
                assert(s@.subrange(0, k as int) =~= s@.take(k as int));
                assert(s@.subrange(e as int, s.len() as int) =~= s@.skip(e as int));
                assert(s@.skip((k + pat.len()) as int) == i@.skip(k + "fn mainImage("@.len() as int));
                assert(out@ =~= s@.take(k as int) + main_header(
                    (main_vars(s@.skip((k + pat.len()) as int))->0).1,
                ) + s@.skip(e as int));
            }
            proof {
                reveal_strlit("");
                reveal_strlit("fn mainImage(");
                assert(find_first(i@, "fn mainImage("@) == Some(k as nat));
                assert(replaced_main(i@) == Some(out@));
                assert(""@ =~= Seq::<char>::empty());
            }
            return Ok(("", out));
        }
    }
    let mut out = String::new();
    out.append(i);
    Ok((i, out))
}

/// No place before the one `find_first` finds holds `p`.
proof fn lemma_find_first_is_first(s: Seq<char>, p: Seq<char>)
    ensures
        find_first(s, p) matches Some(n) ==> forall|q: int|
            0 <= q < n ==> !starts_with(#[trigger] s.skip(q), p),
    decreases s.len(),
{
    lemma_find_first(s, p);
    if !starts_with(s, p) && s.len() > 0 {
        lemma_find_first_is_first(s.skip(1), p);
        if let Some(n) = find_first(s, p) {
            assert forall|q: int| 0 <= q < n implies !starts_with(#[trigger] s.skip(q), p) by {
                if q == 0 {
                    assert(s.skip(0) =~= s);
                } else {
                    assert(s.skip(1).skip(q - 1) =~= s.skip(q));
                }
            }
        }
    }
}

/// The parameters after the first take no more than the text.
proof fn lemma_more_vars_len(s: Seq<char>)
    ensures
        more_vars(s).0 <= s.len(),
    decreases s.len(),
{
    if starts_with(s, ", "@) {
        if let Some((n, v)) = var_and_type(s.skip(2)) {
            if 2 + n <= s.len() {
                lemma_more_vars_len(s.skip(2 + n as int));
            }
        }
    }
}

/// The first parameter takes no more than the text.
proof fn lemma_var_and_type_len(s: Seq<char>)
    ensures
        var_and_type(s) matches Some((n, v)) ==> n <= s.len(),
{
    let a = lead_len(s, CharClass::IdentNum);
    reveal_strlit(": ");
    lemma_lead_len(s, CharClass::IdentNum);
    if var_and_type(s) is Some {
        lemma_lead_len(s.skip(a + 2int), CharClass::IdentType);
    }
}

/// Where the `mainImage` line is replaced, only that line changes: the text
/// before the first `fn mainImage(` is kept as it is, the entry point's
/// opening takes the line's place, and the text after the `) -> () {` that
/// ends the line is kept as it is.
pub proof fn lemma_main_line_keeps_the_rest(s: Seq<char>)
    ensures
        replaced_main(s) matches Some(t) ==> {
            let pat = "fn mainImage("@;
            let p = find_first(s, pat)->0;
            &&& starts_with(s.skip(p as int), pat)
            &&& forall|q: int| 0 <= q < p ==> !starts_with(#[trigger] s.skip(q), pat)
            &&& t.take(p as int) == s.take(p as int)
            &&& starts_with(t.skip(p as int), update_init())
            &&& exists|e: int|
                #![trigger s.skip(e)]
                p + pat.len() + 9 <= e <= s.len() && s.subrange(e - 9, e) == ") -> () {"@
                    && e - s.len() + t.len() >= p && t.skip(t.len() - (s.len() - e)) == s.skip(e)
        },
{
    let pat = "fn mainImage("@;
    reveal_strlit("fn mainImage(");
    reveal_strlit(") -> () {");
    lemma_find_first(s, pat);
    lemma_find_first_is_first(s, pat);
    if let Some(t) = replaced_main(s) {
        let p = find_first(s, pat)->0;
        let s2 = s.skip(p + pat.len() as int);
        let (n, vars) = main_vars(s2)->0;
        let (n0, v0) = var_and_type(s2)->0;
        let (m, vs) = more_vars(s2.skip(n0 as int));
        let close = ") -> () {"@;
        lemma_var_and_type_len(s2);
        lemma_more_vars_len(s2.skip(n0 as int));
        assert(starts_with(s2.skip(n0 + m as int), close));
        assert(n == n0 + m + 9);
        let e: int = (p + pat.len() + n) as int;
        let h = main_header(vars);
        assert(e <= s.len());
        assert(s2.skip(n0 + m as int).take(9) =~= s.subrange(e - 9, e));
        assert(t == s.take(p as int) + h + s.skip(e));
        assert(t.take(p as int) =~= s.take(p as int));
        assert(t.skip(p as int) =~= h + s.skip(e));
        assert(h.take(update_init().len() as int) =~= update_init());
        assert(t.skip(p as int).take(update_init().len() as int) =~= update_init());
        assert(t.skip(t.len() - (s.len() - e)) =~= s.skip(e));
    }
}

} // verus!
