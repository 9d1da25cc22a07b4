//! Reads the lines `#define func(arg0, arg1) expression`, replaces each call
//! `func(a, b)` by the expression with its arguments filled in, and takes
//! those lines out.

use vstd::prelude::*;
use crate::nom_helpers::{
    call_args, call_args_at, class_end, in_class, lead_len, name_args, name_args_at, parsed,
    replaced_ident, replaced_words, search_and_replace, search_and_replace_identifier, views,
    CharClass, ParseError, ParserResult,
};
use crate::text::{find_first, find_from, nat_digits, push_range, starts_with, starts_with_at, suffix, to_chars, write_nat};

pub use crate::nom_helpers::rest_of_script;

verus! {

/// A `#define` of a function-like macro: its name, its parameters, and the
/// expression it stands for, with each parameter written `#arg_` and its
/// position.
pub struct DefineFunc {
    pub name: String,
    pub args: Vec<String>,
    pub replace_by: String,
}

/// A line `#define name(params) text` and its line feed at the start of
/// `s` (one space after `#define`): where the line ends.
pub open spec fn func_define_line_at(s: Seq<char>) -> Option<nat> {
    let l = lead_len(s.skip(8), CharClass::IdentNum);
    if starts_with(s, "#define "@) && l > 0 {
        match name_args(s.skip(8 + l as int)) {
            Some((a, names)) => match find_first(s.skip(8 + l + a as int), "\n"@) {
                Some(n) => Some(8 + l + a + n + 1),
                None => None,
            },
            None => None,
        }
    } else {
        None
    }
}

/// The first such line of `s`: where it starts and where it ends.
pub open spec fn find_func_define_line(s: Seq<char>) -> Option<(nat, nat)>
    decreases s.len(),
{
    match func_define_line_at(s) {
        Some(e) => Some((0nat, e)),
        None => if s.len() == 0 {
            None
        } else {
            match find_func_define_line(s.skip(1)) {
                Some((p, e)) => Some((p + 1, e + 1)),
                None => None,
            }
        },
    }
}

/// `s` without its `#define name(params) text` lines.
pub open spec fn erased_func_defines(s: Seq<char>) -> Seq<char>
    decreases s.len(),
{
    if s.len() == 0 {
        s
    } else {
        match find_func_define_line(s) {
            Some((p, e)) => if p < e <= s.len() {
                s.take(p as int) + erased_func_defines(s.skip(e as int))
            } else {
                s
            },
            None => s,
        }
    }
}

/// `#define`, blanks, a name and a parameter list at the start of `s`:
/// where the list ends, the name and the parameters.
pub open spec fn define_func_tag_at(s: Seq<char>) -> Option<(nat, Seq<char>, Seq<Seq<char>>)> {
    let c = lead_len(s.skip(7), CharClass::Blank);
    let l = lead_len(s.skip(7 + c as int), CharClass::IdentNum);
    if starts_with(s, "#define"@) && c > 0 && l > 0 {
        match name_args(s.skip(7 + c + l as int)) {
            Some((a, names)) => Some((7 + c + l + a, s.subrange(7 + c as int, 7 + c + l as int), names)),
            None => None,
        }
    } else {
        None
    }
}

/// The first `define_func_tag_at` of `s`: where it starts, where it ends,
/// the name and the parameters.
pub open spec fn find_define_func_tag(s: Seq<char>) -> Option<(nat, nat, Seq<char>, Seq<Seq<char>>)>
    decreases s.len(),
{
    match define_func_tag_at(s) {
        Some((e, name, names)) => Some((0nat, e, name, names)),
        None => if s.len() == 0 {
            None
        } else {
            match find_define_func_tag(s.skip(1)) {
                Some((p, e, name, names)) => Some((p + 1, e + 1, name, names)),
                None => None,
            }
        },
    }
}

/// Blanks, then the text of a line and its line feed, at the start of `s`:
/// how many characters that takes and the line's text.
pub open spec fn assignment_at(s: Seq<char>) -> Option<(nat, Seq<char>)> {
    let w = lead_len(s, CharClass::Space);
    match find_first(s.skip(w as int), "\n"@) {
        Some(n) => Some((w + n + 1, s.subrange(w as int, w + n as int))),
        None => None,
    }
}

/// The placeholder for the parameter at position `k`.
pub open spec fn arg_tag(k: nat) -> Seq<char> {
    "#arg_"@ + nat_digits(k)
}

/// The expression with the parameters, from position `k` on, written as
/// their placeholders.
pub open spec fn tag_args(a: Seq<char>, params: Seq<Seq<char>>, k: nat) -> Seq<char>
    decreases params.len(),
{
    if params.len() == 0 {
        a
    } else {
        tag_args(replaced_ident(a, params[0], arg_tag(k)), params.drop_first(), k + 1)
    }
}

/// The first function-like definition of `s`: where it ends, the name, the
/// parameters and the expression with its placeholders.
pub open spec fn define_func_at(s: Seq<char>) -> Option<(nat, Seq<char>, Seq<Seq<char>>, Seq<char>)> {
    match find_define_func_tag(s) {
        Some((p, e, name, params)) => match assignment_at(s.skip(e as int)) {
            Some((n, a)) => Some((e + n, name, params, tag_args(a, params, 0))),
            None => None,
        },
        None => None,
    }
}

/// The function-like definitions of `s`, read one after the other.
pub open spec fn all_define_funcs(s: Seq<char>) -> Seq<(Seq<char>, Seq<Seq<char>>, Seq<char>)>
    decreases s.len(),
{
    match define_func_at(s) {
        Some((n, name, params, rb)) => if 0 < n <= s.len() {
            seq![(name, params, rb)] + all_define_funcs(s.skip(n as int))
        } else {
            Seq::empty()
        },
        None => Seq::empty(),
    }
}

/// How many characters the definitions of `all_define_funcs` take.
pub open spec fn define_funcs_len(s: Seq<char>) -> nat
    decreases s.len(),
{
    match define_func_at(s) {
        Some((n, name, params, rb)) => if 0 < n <= s.len() {
            n + define_funcs_len(s.skip(n as int))
        } else {
            0
        },
        None => 0,
    }
}

/// The first use of `name` in `s`: a whole run of identifier characters and
/// dots that equals `name`, not preceded by an identifier character (`at`
/// tells whether the character before `s`, if any, is one). Where it starts
/// and where it ends.
pub open spec fn find_word(s: Seq<char>, name: Seq<char>, at: bool) -> Option<(nat, nat)>
    decreases s.len(),
{
    let l = lead_len(s, CharClass::IdentNum);
    if at && l > 0 && s.take(l as int) == name {
        Some((0nat, l))
    } else if s.len() == 0 {
        None
    } else {
        match find_word(s.skip(1), name, !in_class(CharClass::IdentNum, s[0])) {
            Some((p, e)) => Some((p + 1, e + 1)),
            None => None,
        }
    }
}

/// The expression with the placeholders, from position `k` on, filled with
/// the call's arguments.
pub open spec fn fill_args(expr: Seq<char>, args: Seq<Seq<char>>, k: nat) -> Seq<char>
    decreases args.len(),
{
    if args.len() == 0 {
        expr
    } else {
        fill_args(replaced_words(expr, arg_tag(k), args[0]), args.drop_first(), k + 1)
    }
}

/// Up to the end of the first call of `name`: how many characters that
/// takes and the text with the call replaced by the filled expression.
pub open spec fn func_use_step(s: Seq<char>, name: Seq<char>, rb: Seq<char>) -> Option<(nat, Seq<char>)> {
    match find_word(s, name, true) {
        Some((p, e)) => match call_args(s.skip(e as int)) {
            Some((n, args)) => Some((e + n, s.take(p as int) + fill_args(rb, args, 0))),
            None => None,
        },
        None => None,
    }
}

/// `s` with the calls of `name` replaced one after the other, up to the
/// first use of `name` that is not followed by an argument list.
pub open spec fn replaced_func_uses(s: Seq<char>, name: Seq<char>, rb: Seq<char>) -> Seq<char>
    decreases s.len(),
{
    match func_use_step(s, name, rb) {
        Some((n, o)) => if 0 < n <= s.len() {
            o + replaced_func_uses(s.skip(n as int), name, rb)
        } else {
            s
        },
        None => s,
    }
}

/// `s` with the definitions' calls replaced, one definition after the
/// other.
pub open spec fn apply_define_funcs(s: Seq<char>, defs: Seq<(Seq<char>, Seq<Seq<char>>, Seq<char>)>) -> Seq<
    char,
>
    decreases defs.len(),
{
    if defs.len() == 0 {
        s
    } else {
        apply_define_funcs(replaced_func_uses(s, defs[0].0, defs[0].2), defs.drop_first())
    }
}

/// `s` without its function-like definitions and with their calls replaced.
pub open spec fn func_defined(s: Seq<char>) -> Seq<char> {
    apply_define_funcs(erased_func_defines(s), all_define_funcs(s))
}

/// The triples (name, parameters, expression) of a list of definitions.
pub open spec fn define_func_triples(v: Seq<DefineFunc>) -> Seq<(Seq<char>, Seq<Seq<char>>, Seq<char>)> {
    Seq::new(v.len(), |j: int| (v[j].name@, views(v[j].args@), v[j].replace_by@))
}

proof fn lemma_func_define_literals()
    ensures
        "#define"@.len() == 7,
        "#define "@.len() == 8,
        "\n"@ == seq!['\n'],
        "#arg_"@.len() == 5,
{
    reveal_strlit("#define");
    reveal_strlit("#define ");
    reveal_strlit("\n");
    reveal_strlit("#arg_");
}


fn func_define_line_pos(s: &Vec<char>, pos: usize, kw: &Vec<char>, nl: &Vec<char>) -> (r: Option<usize>)
    requires
        pos <= s.len(),
        kw@ == "#define "@,
        nl@ == "\n"@,
    ensures
        match func_define_line_at(s@.skip(pos as int)) {
            Some(e) => r == Some((pos + e) as usize) && pos + e <= s.len(),
            None => r is None,
        },
{
    proof {
        lemma_func_define_literals();
    }
    let ghost t = s@.skip(pos as int);
    if !starts_with_at(s, pos, kw) {
        return None;
    }
    assert(t.skip(8) =~= s@.skip(pos + 8));
    let l = class_end(s, pos + 8, CharClass::IdentNum);
    if l == pos + 8 {
        return None;
    }
    assert(t.skip(8 + (l - pos - 8)) =~= s@.skip(l as int));
    match name_args_at(s, l) {
        Some((a, _names)) => {
            assert(t.skip(8 + (l - pos - 8) + (a - l)) =~= s@.skip(a as int));
            match find_from(s, a, nl) {
                Some(n) => Some(n + 1),
                None => None,
            }
        },
        None => None,
    }
}

fn scan_func_define_line(s: &Vec<char>, from: usize, kw: &Vec<char>, nl: &Vec<char>) -> (r: Option<
    (usize, usize),
>)
    requires
        from <= s.len(),
        kw@ == "#define "@,
        nl@ == "\n"@,
    ensures
        match find_func_define_line(s@.skip(from as int)) {
            Some((p, e)) => r == Some(((from + p) as usize, (from + e) as usize)) && from + p < from
                + e <= s.len(),
            None => r is None,
        },
{
    let mut k = from;
    loop
        invariant
            from <= k <= s.len(),
            kw@ == "#define "@,
            nl@ == "\n"@,
            find_func_define_line(s@.skip(from as int)) == match find_func_define_line(
                s@.skip(k as int),
            ) {
                Some((p, e)) => Some(((p + (k - from)) as nat, (e + (k - from)) as nat)),
                None => None,
            },
        decreases s.len() - k,
    {
        if let Some(e) = func_define_line_pos(s, k, kw, nl) {
            return Some((k, e));
        }
        if k == s.len() {
            return None;
        }
        assert(s@.skip(k as int).skip(1) =~= s@.skip(k + 1));
        k = k + 1;
    }
}

/// Reads up to the end of the first `#define name(params) text` line and
/// gives the text before it.
pub fn erase_one_define(i: &str) -> (r: ParserResult<String>)
    ensures
        match find_func_define_line(i@) {
            Some((p, e)) => parsed(r, i@.skip(e as int), i@.take(p as int)),
            None => r is Err,
        },
{
    let s = to_chars(i);
    let kw = to_chars("#define ");
    let nl = to_chars("\n");
    assert(s@.skip(0) =~= s@);
    match scan_func_define_line(&s, 0, &kw, &nl) {
        Some((p, e)) => {
            let mut out = String::new();
            push_range(&mut out, &s, 0, p);
            assert(s@.subrange(0, p as int) =~= s@.take(p as int));
            Ok((suffix(i, e), out))
        },
        None => Err(ParseError::Mismatch),
    }
}

/// Takes the `#define name(params) text` lines out of the text; it reads
/// the whole input.
#[verifier::rlimit(40)]
pub fn erase_all_func_defines(i: &str) -> (r: ParserResult<String>)
    ensures
        parsed(r, Seq::empty(), erased_func_defines(i@)),
{
    let s = to_chars(i);
    let kw = to_chars("#define ");
    let nl = to_chars("\n");
    let mut out = String::new();
    let mut k: usize = 0;
    assert(s@.skip(0) =~= s@);
    loop
        invariant
            k <= s.len(),
            s@ == i@,
            kw@ == "#define "@,
            nl@ == "\n"@,
            erased_func_defines(i@) == out@ + erased_func_defines(s@.skip(k as int)),
        ensures
            k <= s.len(),
            erased_func_defines(i@) == out@ + s@.skip(k as int),
        decreases s.len() - k,
    {
        let ghost t = s@.skip(k as int);
        if k == s.len() {
            assert(erased_func_defines(t) == t);
            break;
        }
        match scan_func_define_line(&s, k, &kw, &nl) {
            Some((p, e)) => {
                push_range(&mut out, &s, k, p);
                proof {
                    assert(erased_func_defines(t) == t.take((p - k) as int) + erased_func_defines(
                        t.skip((e - k) as int),
                    ));
                    assert(t.take((p - k) as int) =~= s@.subrange(k as int, p as int));
                    assert(t.skip((e - k) as int) =~= s@.skip(e as int));
                }
                k = e;
            },
            None => {
                assert(erased_func_defines(t) == t);
                break;
            },
        }
    }
    push_range(&mut out, &s, k, s.len());
    assert(s@.subrange(k as int, s.len() as int) =~= s@.skip(k as int));
    proof {
        reveal_strlit("");
        assert(""@ =~= Seq::<char>::empty());
    }
    Ok(("", out))
}

fn define_func_tag_pos(s: &Vec<char>, pos: usize, kw: &Vec<char>) -> (r: Option<
    (usize, usize, usize, Vec<String>),
>)
    requires
        pos <= s.len(),
        kw@ == "#define"@,
    ensures
        match define_func_tag_at(s@.skip(pos as int)) {
            Some((e, name, names)) => r matches Some((e2, ns, ne, out)) && e2 == pos + e && ns <= ne
                <= e2 <= s.len() && name == s@.subrange(ns as int, ne as int) && views(out@)
                == names,
            None => r is None,
        },
{
    proof {
        lemma_func_define_literals();
    }
    let ghost t = s@.skip(pos as int);
    if !starts_with_at(s, pos, kw) {
        return None;
    }
    assert(t.skip(7) =~= s@.skip(pos + 7));
    let c = class_end(s, pos + 7, CharClass::Blank);
    if c == pos + 7 {
        return None;
    }
    assert(t.skip(7 + (c - pos - 7)) =~= s@.skip(c as int));
    let l = class_end(s, c, CharClass::IdentNum);
    if l == c {
        return None;
    }
    assert(t.skip(7 + (c - pos - 7) + (l - c)) =~= s@.skip(l as int));
    assert(t.subrange(7 + (c - pos - 7), 7 + (c - pos - 7) + (l - c)) =~= s@.subrange(c as int, l as int));
    match name_args_at(s, l) {
        Some((a, names)) => Some((a, c, l, names)),
        None => None,
    }
}

/// Reads `#define`, blanks, a name and a list of parameter names, and gives
/// the name and the parameters.
pub fn replace_define_tag(i: &str) -> (r: ParserResult<(String, Vec<String>)>)
    ensures
        match define_func_tag_at(i@) {
            Some((e, name, names)) => r matches Ok((rest, (n, a))) && rest@ == i@.skip(e as int)
                && n@ == name && views(a@) == names,
            None => r is Err,
        },
{
    let s = to_chars(i);
    let kw = to_chars("#define");
    assert(s@.skip(0) =~= s@);
    match define_func_tag_pos(&s, 0, &kw) {
        Some((e, ns, ne, names)) => {
            let mut name = String::new();
            push_range(&mut name, &s, ns, ne);
            Ok((suffix(i, e), (name, names)))
        },
        None => Err(ParseError::Mismatch),
    }
}

fn scan_define_func_tag(s: &Vec<char>, from: usize, kw: &Vec<char>) -> (r: Option<
    (usize, usize, usize, usize, Vec<String>),
>)
    requires
        from <= s.len(),
        kw@ == "#define"@,
    ensures
        match find_define_func_tag(s@.skip(from as int)) {
            Some((p, e, name, names)) => r matches Some((p2, e2, ns, ne, out)) && p2 == from + p
                && e2 == from + e && ns <= ne <= e2 <= s.len() && name == s@.subrange(
                ns as int,
                ne as int,
            ) && views(out@) == names,
            None => r is None,
        },
{
    let mut k = from;
    loop
        invariant
            from <= k <= s.len(),
            kw@ == "#define"@,
            find_define_func_tag(s@.skip(from as int)) == match find_define_func_tag(
                s@.skip(k as int),
            ) {
                Some((p, e, name, names)) => Some(
                    ((p + (k - from)) as nat, (e + (k - from)) as nat, name, names),
                ),
                None => None,
            },
        decreases s.len() - k,
    {
        if let Some((e, ns, ne, names)) = define_func_tag_pos(s, k, kw) {
            return Some((k, e, ns, ne, names));
        }
        if k == s.len() {
            return None;
        }
        assert(s@.skip(k as int).skip(1) =~= s@.skip(k + 1));
        k = k + 1;
    }
}

/// Reads up to the end of the first `#define name(params)` and gives the
/// name and the parameters.
pub fn get_name_and_args(i: &str) -> (r: ParserResult<(String, Vec<String>)>)
    ensures
        match find_define_func_tag(i@) {
            Some((p, e, name, names)) => r matches Ok((rest, (n, a))) && rest@ == i@.skip(e as int)
                && n@ == name && views(a@) == names && e <= i@.len(),
            None => r is Err,
        },
{
    let s = to_chars(i);
    let kw = to_chars("#define");
    assert(s@.skip(0) =~= s@);
    match scan_define_func_tag(&s, 0, &kw) {
        Some((_p, e, ns, ne, names)) => {
            let mut name = String::new();
            push_range(&mut name, &s, ns, ne);
            Ok((suffix(i, e), (name, names)))
        },
        None => Err(ParseError::Mismatch),
    }
}

/// Reads blanks, then a line and its line feed, and gives the line's text.
pub fn get_assignment(i: &str) -> (r: ParserResult<String>)
    ensures
        match assignment_at(i@) {
            Some((n, a)) => parsed(r, i@.skip(n as int), a) && n <= i@.len(),
            None => r is Err,
        },
{
    let s = to_chars(i);
    let nl = to_chars("\n");
    assert(s@.skip(0) =~= s@);
    let w = class_end(&s, 0, CharClass::Space);
    match find_from(&s, w, &nl) {
        Some(n) => {
            proof {
                lemma_func_define_literals();
            }
            let mut out = String::new();
            push_range(&mut out, &s, w, n);
            Ok((suffix(i, n + 1), out))
        },
        None => Err(ParseError::Mismatch),
    }
}

fn arg_tag_string(k: usize) -> (r: String)
    ensures
        r@ == arg_tag(k as nat),
{
    let mut r = String::new();
    r.append("#arg_");
    write_nat(&mut r, k as u64);
    r
}

/// Reads the first function-like definition, `#define name(params)` and the
/// rest of its line, and gives it with each parameter of the expression
/// written as its placeholder `#arg_` and its position.
pub fn construct_assignment_vars(i: &str) -> (r: ParserResult<DefineFunc>)
    ensures
        match define_func_at(i@) {
            Some((n, name, params, rb)) => r matches Ok((rest, d)) && rest@ == i@.skip(n as int)
                && d.name@ == name && views(d.args@) == params && d.replace_by@ == rb && n
                <= i@.len(),
            None => r is Err,
        },
{
    let (rest, (name, args)) = match get_name_and_args(i) {
        Ok(x) => x,
        Err(e) => return Err(e),
    };
    let (rest, assignment0) = match get_assignment(rest) {
        Ok(x) => x,
        Err(e) => return Err(e),
    };
    let mut assignment = assignment0;
    let ghost params = views(args@);
    let mut num: usize = 0;
    assert(params.skip(0) =~= params);
    while num < args.len()
        invariant
            num <= args.len(),
            params == views(args@),
            tag_args(assignment0@, params, 0) == tag_args(assignment@, params.skip(num as int), num as nat),
        decreases args.len() - num,
    {
        assert(params.skip(num as int)[0] == args@[num as int]@);
        assert(params.skip(num as int).drop_first() =~= params.skip(num + 1));
        let num_str = arg_tag_string(num);
        let arg = args[num].clone();
        if let Ok((_, assignment2)) = search_and_replace_identifier(assignment.as_str(), arg, num_str) {
            assignment = assignment2;
        }
        num = num + 1;
    }
    assert(params.skip(args.len() as int) =~= Seq::<Seq<char>>::empty());
    proof {
        let ghost t = i@;
        assert(i@.skip((find_define_func_tag(t)->0).1 as int).skip(
            (assignment_at(i@.skip((find_define_func_tag(t)->0).1 as int))->0).0 as int,
        ) =~= i@.skip((define_func_at(t)->0).0 as int));
    }
    Ok((rest, DefineFunc { name, args, replace_by: assignment }))
}


/// Reads the function-like definitions one after the other and gives them.
pub fn get_all_define_funcs(i: &str) -> (r: ParserResult<Vec<DefineFunc>>)
    ensures
        r matches Ok((rest, defs)) && rest@ == i@.skip(define_funcs_len(i@) as int)
            && define_func_triples(defs@) == all_define_funcs(i@),
{
    let mut defs: Vec<DefineFunc> = Vec::new();
    let mut rest: &str = i;
    let ghost mut used: nat = 0;
    assert(i@.skip(0) =~= i@);
    loop
        invariant
            used <= i@.len(),
            rest@ == i@.skip(used as int),
            define_funcs_len(i@) == used + define_funcs_len(rest@),
            all_define_funcs(i@) == define_func_triples(defs@) + all_define_funcs(rest@),
        ensures
            rest@ == i@.skip(define_funcs_len(i@) as int),
            all_define_funcs(i@) == define_func_triples(defs@),
        decreases rest@.len(),
    {
        match construct_assignment_vars(rest) {
            Ok((r2, d)) => {
                if r2.unicode_len() >= rest.unicode_len() {
                    assert(define_funcs_len(rest@) == 0);
                    assert(all_define_funcs(rest@) =~= Seq::<(Seq<char>, Seq<Seq<char>>, Seq<char>)>::empty());
                    assert(define_func_triples(defs@) + Seq::<(Seq<char>, Seq<Seq<char>>, Seq<char>)>::empty()
                        =~= define_func_triples(defs@));
                    break;
                }
                let ghost n = (define_func_at(rest@)->0).0;
                let ghost tr = (d.name@, views(d.args@), d.replace_by@);
                let ghost d0 = define_func_triples(defs@);
                proof {
                    assert(r2@ == rest@.skip(n as int));
                    assert(all_define_funcs(rest@) == seq![tr] + all_define_funcs(r2@));
                    assert(i@.skip(used as int).skip(n as int) =~= i@.skip(used + n as int));
                    assert(d0.push(tr) + all_define_funcs(r2@) =~= d0 + (seq![tr] + all_define_funcs(
                        r2@,
                    )));
                    used = used + n;
                }
                defs.push(d);
                assert(define_func_triples(defs@) =~= d0.push(tr));
                rest = r2;
            },
            Err(_) => {
                assert(define_funcs_len(rest@) == 0);
                assert(all_define_funcs(rest@) =~= Seq::<(Seq<char>, Seq<Seq<char>>, Seq<char>)>::empty());
                assert(define_func_triples(defs@) + Seq::<(Seq<char>, Seq<Seq<char>>, Seq<char>)>::empty()
                    =~= define_func_triples(defs@));
                break;
            },
        }
    }
    assert(i@.skip(used as int) == rest@);
    Ok((rest, defs))
}

/// Reads a run of identifier characters and dots that equals `name`.
pub fn detect_identifier_as_arg(i: &str, name: String) -> (r: ParserResult<String>)
    ensures
        lead_len(i@, CharClass::IdentNum) > 0 && i@.take(lead_len(i@, CharClass::IdentNum) as int)
            == name@ ==> parsed(r, i@.skip(lead_len(i@, CharClass::IdentNum) as int), name@),
        !(lead_len(i@, CharClass::IdentNum) > 0 && i@.take(lead_len(i@, CharClass::IdentNum) as int)
            == name@) ==> r is Err,
{
    let s = to_chars(i);
    let nm = to_chars(name.as_str());
    assert(s@.skip(0) =~= s@);
    let l = class_end(&s, 0, CharClass::IdentNum);
    if l > 0 && l == nm.len() && starts_with_at(&s, 0, &nm) {
        assert(s@.take(l as int) =~= s@.skip(0).take(nm.len() as int));
        Ok((suffix(i, l), name))
    } else {
        proof {
            if l > 0 && s@.take(l as int) == name@ {
                assert(s@.take(l as int) =~= s@.skip(0).take(nm.len() as int));
            }
        }
        Err(ParseError::Mismatch)
    }
}

fn scan_word(s: &Vec<char>, from: usize, name: &Vec<char>) -> (r: Option<(usize, usize)>)
    requires
        from <= s.len(),
    ensures
        match find_word(s@.skip(from as int), name@, true) {
            Some((p, e)) => r == Some(((from + p) as usize, (from + e) as usize)) && from + p <= from
                + e <= s.len(),
            None => r is None,
        },
{
    let mut k = from;
    let mut at = true;
    loop
        invariant
            from <= k <= s.len(),
            find_word(s@.skip(from as int), name@, true) == match find_word(
                s@.skip(k as int),
                name@,
                at,
            ) {
                Some((p, e)) => Some(((p + (k - from)) as nat, (e + (k - from)) as nat)),
                None => None,
            },
        decreases s.len() - k,
    {
        let ghost t = s@.skip(k as int);
        let l = class_end(s, k, CharClass::IdentNum);
        if at && l > k && l - k == name.len() && starts_with_at(s, k, name) {
            assert(t.take((l - k) as int) =~= s@.skip(k as int).take(name.len() as int));
            return Some((k, l));
        }
        proof {
            if at && l > k && t.take((l - k) as int) == name@ {
                assert(t.take((l - k) as int) =~= s@.skip(k as int).take(name.len() as int));
            }
        }
        if k == s.len() {
            return None;
        }
        assert(t.skip(1) =~= s@.skip(k + 1));
        assert(t[0] == s@[k as int]);
        at = !crate::nom_helpers::class_has(CharClass::IdentNum, s[k]);
        k = k + 1;
    }
}

fn fill_args_string(rb: &String, args: &Vec<String>) -> (r: String)
    ensures
        r@ == fill_args(rb@, views(args@), 0),
{
    let ghost all = views(args@);
    let mut expr = rb.clone();
    let mut n: usize = 0;
    assert(all.skip(0) =~= all);
    while n < args.len()
        invariant
            n <= args.len(),
            all == views(args@),
            fill_args(rb@, all, 0) == fill_args(expr@, all.skip(n as int), n as nat),
        decreases args.len() - n,
    {
        assert(all.skip(n as int)[0] == args@[n as int]@);
        assert(all.skip(n as int).drop_first() =~= all.skip(n + 1));
        let num_str = arg_tag_string(n);
        let arg = args[n].clone();
        if let Ok((_, e2)) = search_and_replace(expr.as_str(), num_str, arg) {
            expr = e2;
        }
        n = n + 1;
    }
    assert(all.skip(args.len() as int) =~= Seq::<Seq<char>>::empty());
    expr
}

fn func_use_at(s: &Vec<char>, k: usize, nm: &Vec<char>, rb: &String) -> (r: Option<(usize, String)>)
    requires
        k <= s.len(),
    ensures
        match func_use_step(s@.skip(k as int), nm@, rb@) {
            Some((n, o)) => r matches Some((c, piece)) && c == k + n && k < c <= s.len() && piece@
                == o,
            None => r is None,
        },
{
    let ghost t = s@.skip(k as int);
    match scan_word(s, k, nm) {
        Some((p, e)) => {
            assert(t.skip((e - k) as int) =~= s@.skip(e as int));
            match call_args_at(s, e) {
                Some((c, args)) => {
                    let ghost ca = call_args(s@.skip(e as int));
                    assert(views(args@) =~= (ca->0).1);
                    let mut piece = String::new();
                    push_range(&mut piece, s, k, p);
                    let f = fill_args_string(rb, &args);
                    piece.append(f.as_str());
                    assert(t.take((p - k) as int) =~= s@.subrange(k as int, p as int));
                    assert(func_use_step(t, nm@, rb@) == Some(
                        ((c - k) as nat, t.take((p - k) as int) + fill_args(rb@, views(args@), 0)),
                    ));
                    Some((c, piece))
                },
                None => None,
            }
        },
        None => None,
    }
}

#[verifier::rlimit(40)]
fn replace_func_uses_string(i: &str, name: &String, rb: &String) -> (r: String)
    ensures
        r@ == replaced_func_uses(i@, name@, rb@),
{
    let s = to_chars(i);
    let nm = to_chars(name.as_str());
    let mut out = String::new();
    let mut k: usize = 0;
    assert(s@.skip(0) =~= s@);
    loop
        invariant
            k <= s.len(),
            s@ == i@,
            nm@ == name@,
            replaced_func_uses(i@, name@, rb@) == out@ + replaced_func_uses(
                s@.skip(k as int),
                name@,
                rb@,
            ),
        ensures
            k <= s.len(),
            replaced_func_uses(i@, name@, rb@) == out@ + s@.skip(k as int),
        decreases s.len() - k,
    {
        let ghost t = s@.skip(k as int);
        match func_use_at(&s, k, &nm, rb) {
            Some((c, piece)) => {
                out.append(piece.as_str());
                assert(t.skip((c - k) as int) =~= s@.skip(c as int));
                k = c;
            },
            None => {
                break;
            },
        }
    }
    push_range(&mut out, &s, k, s.len());
    assert(s@.subrange(k as int, s.len() as int) =~= s@.skip(k as int));
    out
}

/// Replaces each call `name(a, b, ...)` of the definition by its expression
/// with the placeholders filled with the call's arguments, up to the first
/// use of the name that is not followed by an argument list; it reads the
/// whole input.
pub fn find_and_replace_single_define_func(i: &str, def: DefineFunc) -> (r: ParserResult<String>)
    ensures
        parsed(r, Seq::empty(), replaced_func_uses(i@, def.name@, def.replace_by@)),
{
    let out = replace_func_uses_string(i, &def.name, &def.replace_by);
    proof {
        reveal_strlit("");
        assert(""@ =~= Seq::<char>::empty());
    }
    Ok(("", out))
}

/// Replaces the calls of each definition in turn; it reads the whole input.
pub fn find_and_replace_define_funcs(i: &str, defs: Vec<DefineFunc>) -> (r: ParserResult<String>)
    ensures
        parsed(r, Seq::empty(), apply_define_funcs(i@, define_func_triples(defs@))),
{
    let ghost all = define_func_triples(defs@);
    let mut full_script = String::new();
    full_script.append(i);
    let mut j: usize = 0;
    assert(all.skip(0) =~= all);
    while j < defs.len()
        invariant
            j <= defs.len(),
            all == define_func_triples(defs@),
            apply_define_funcs(i@, all) == apply_define_funcs(full_script@, all.skip(j as int)),
        decreases defs.len() - j,
    {
        assert(all.skip(j as int)[0] == all[j as int]);
        assert(all.skip(j as int).drop_first() =~= all.skip(j + 1));
        full_script = replace_func_uses_string(full_script.as_str(), &defs[j].name, &defs[j].replace_by);
        j = j + 1;
    }
    assert(all.skip(defs.len() as int) =~= Seq::<(Seq<char>, Seq<Seq<char>>, Seq<char>)>::empty());
    proof {
        reveal_strlit("");
        assert(""@ =~= Seq::<char>::empty());
    }
    Ok(("", full_script))
}

/// Reads the function-like definitions of the text, takes their lines out,
/// and replaces their calls; it reads the whole input.
pub fn func_definition_parser(i: &str) -> (r: ParserResult<String>)
    ensures
        parsed(r, Seq::empty(), func_defined(i@)),
{
    let (_rest, define_funcs) = match get_all_define_funcs(i) {
        Ok(x) => x,
        Err(e) => return Err(e),
    };
    let (_, no_defines) = match erase_all_func_defines(i) {
        Ok(x) => x,
        Err(e) => return Err(e),
    };
    match find_and_replace_define_funcs(no_defines.as_str(), define_funcs) {
        Ok((_, so_far)) => {
            proof {
                reveal_strlit("");
                assert(""@ =~= Seq::<char>::empty());
            }
            Ok(("", so_far))
        },
        Err(e) => Err(e),
    }
}

} // verus!
