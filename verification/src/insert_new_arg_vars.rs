//! Gives each function parameter that the body assigns again a variable of
//! its own, `name_var`, declared at the top of the body, and makes the body
//! use it in place of the parameter.

use vstd::prelude::*;
use crate::let2var::{name_match, name_match_pos};
use crate::nom_helpers::{
    body_end, body_len, body_ok, body_ok_exec, parsed, replaced_ident, search_and_replace_identifier, views,
    ParseError, ParserResult,
};
use crate::replace_inouts::{find_fn, scan_fn};
use crate::text::{
    find_first, find_from, find_tag, first_tag, lemma_first_tag_fits, push_range, starts_with,
    starts_with_at, suffix, to_chars,
};

pub use crate::let2var::{
    either_type_or_not, get_named_var, read_equal, read_type, till_space, till_space_or_colon,
};
pub use crate::replace_inouts::{argument1_simple, function_call_args_anychar2};

verus! {

/// The assignment operators that count as assigning a variable again.
pub open spec fn assign_ops() -> Seq<Seq<char>> {
    seq![" = "@, " += "@, " -= "@, " *= "@, " /= "@, " %= "@]
}

/// `name` as a whole identifier at the start of `s` (see `name_match`),
/// followed by an assignment operator: where the operator ends.
pub open spec fn assign_at(s: Seq<char>, name: Seq<char>) -> Option<nat> {
    match name_match(s, name) {
        Some(e) => match first_tag(s.skip(e as int), assign_ops()) {
            Some(op) => Some(e + op.len()),
            None => None,
        },
        None => None,
    }
}

/// Where the first assignment to `name` in `s` ends.
pub open spec fn find_assign(s: Seq<char>, name: Seq<char>) -> Option<nat>
    decreases s.len(),
{
    match assign_at(s, name) {
        Some(e) => Some(e),
        None => if s.len() == 0 {
            None
        } else {
            match find_assign(s.skip(1), name) {
                Some(e) => Some(e + 1),
                None => None,
            }
        },
    }
}

/// The name of a parameter `name: type` that may get a variable of its own:
/// empty for a pointer (`name: ptr<..>`) and where there is no `:`.
pub open spec fn arg_var_name(a: Seq<char>) -> Seq<char> {
    match find_first(a, ":"@) {
        Some(p) => if starts_with(a.skip(p + 1int), " ptr"@) {
            Seq::empty()
        } else {
            a.take(p as int)
        },
        None => Seq::empty(),
    }
}

/// The body with, for each name in turn that the body assigns again, a
/// variable `name_var` declared first and used in place of the name.
pub open spec fn var_body(body: Seq<char>, names: Seq<Seq<char>>) -> Seq<char>
    decreases names.len(),
{
    if names.len() == 0 {
        body
    } else {
        let n = names[0];
        let b2 = if find_assign(body, n) is Some {
            "\n\tvar "@ + n + "_var = "@ + n + ";"@ + replaced_ident(body, n, n + "_var"@)
        } else {
            body
        };
        var_body(b2, names.drop_first())
    }
}

/// Where the text has a function header, the first function rewritten:
/// everything up to the first `{`, the `{`, and the block it opens with its
/// parameters' variables added. Gives how many characters that takes.
pub open spec fn reassigned_func(s: Seq<char>) -> Option<(nat, Seq<char>)> {
    match find_fn(s) {
        Some((p, l, e, args)) => match find_first(s, "{"@) {
            Some(q) => match body_len(s.skip(q + 1int), 1) {
                Some(b) => Some(
                    (
                        q + 1 + b,
                        s.take(q as int) + "{"@ + var_body(
                            s.subrange(q + 1int, q + 1 + b as int),
                            args.map_values(|a: Seq<char>| arg_var_name(a)),
                        ),
                    ),
                ),
                None => None,
            },
            None => None,
        },
        None => None,
    }
}

/// Where the text has a function header, it has a `{`, and the block that
/// the first `{` opens never has more than `u32::MAX` braces open.
pub open spec fn reassigned_func_ok(s: Seq<char>) -> bool {
    match find_fn(s) {
        Some((p, l, e, args)) => match find_first(s, "{"@) {
            Some(q) => body_ok(s.skip(q + 1int), 1),
            None => false,
        },
        None => true,
    }
}

/// Every function that `add_var_to_reassigned_args` reads meets
/// `reassigned_func_ok`.
pub open spec fn reassigned_ok(s: Seq<char>) -> bool
    decreases s.len(),
{
    reassigned_func_ok(s) && match reassigned_func(s) {
        Some((n, o)) => 0 < n <= s.len() ==> reassigned_ok(s.skip(n as int)),
        None => true,
    }
}

/// `s` with its functions rewritten one after the other, up to the first
/// that cannot be read, and the rest copied.
pub open spec fn replaced_reassigned(s: Seq<char>) -> Seq<char>
    decreases s.len(),
{
    match reassigned_func(s) {
        Some((n, o)) => if 0 < n <= s.len() {
            o + replaced_reassigned(s.skip(n as int))
        } else {
            s
        },
        None => s,
    }
}

fn assign_tags() -> (r: Vec<Vec<char>>)
    ensures
        r@.map_values(|t: Vec<char>| t@) == assign_ops(),
{
    let mut r: Vec<Vec<char>> = Vec::new();
    r.push(to_chars(" = "));
    r.push(to_chars(" += "));
    r.push(to_chars(" -= "));
    r.push(to_chars(" *= "));
    r.push(to_chars(" /= "));
    r.push(to_chars(" %= "));
    assert(r@.map_values(|t: Vec<char>| t@) =~= assign_ops());
    r
}

fn assign_at_pos(s: &Vec<char>, pos: usize, name: &Vec<char>, ops: &Vec<Vec<char>>) -> (r: Option<
    usize,
>)
    requires
        pos <= s.len(),
        ops@.map_values(|t: Vec<char>| t@) == assign_ops(),
    ensures
        match assign_at(s@.skip(pos as int), name@) {
            Some(e) => r == Some((pos + e) as usize) && pos + e <= s.len(),
            None => r is None,
        },
{
    let ghost t = s@.skip(pos as int);
    match name_match_pos(s, pos, name) {
        Some(e) => {
            assert(t.skip(e - pos) =~= s@.skip(e as int));
            match find_tag(s, e, ops) {
                Some(k) => {
                    proof {
                        lemma_first_tag_fits(s@.skip(e as int), assign_ops());
                    }
                    Some(e + ops[k].len())
                },
                None => None,
            }
        },
        None => None,
    }
}

fn find_assign_from(s: &Vec<char>, from: usize, name: &Vec<char>, ops: &Vec<Vec<char>>) -> (r: bool)
    requires
        from <= s.len(),
        ops@.map_values(|t: Vec<char>| t@) == assign_ops(),
    ensures
        r == find_assign(s@.skip(from as int), name@) is Some,
{
    let mut k = from;
    loop
        invariant
            from <= k <= s.len(),
            ops@.map_values(|t: Vec<char>| t@) == assign_ops(),
            (find_assign(s@.skip(from as int), name@) is Some) == (find_assign(
                s@.skip(k as int),
                name@,
            ) is Some),
        decreases s.len() - k,
    {
        if assign_at_pos(s, k, name, ops).is_some() {
            return true;
        }
        if k == s.len() {
            return false;
        }
        assert(s@.skip(k as int).skip(1) =~= s@.skip(k + 1));
        k = k + 1;
    }
}

/// Reads up to and with the first `:` and gives the text before it.
pub fn get_arg_name(i: &str) -> (r: ParserResult<String>)
    ensures
        match find_first(i@, ":"@) {
            Some(p) => parsed(r, i@.skip(p + 1int), i@.take(p as int)),
            None => r is Err,
        },
{
    let s = to_chars(i);
    let colon = to_chars(":");
    proof {
        reveal_strlit(":");
    }
    assert(s@.skip(0) =~= s@);
    match find_from(&s, 0, &colon) {
        Some(p) => {
            let mut out = String::new();
            push_range(&mut out, &s, 0, p);
            assert(s@.subrange(0, p as int) =~= s@.take(p as int));
            Ok((suffix(i, p + 1), out))
        },
        None => Err(ParseError::Mismatch),
    }
}

/// Whether `s` is assigned further on in the text, as a whole identifier
/// followed by ` = `, ` += `, ` -= `, ` *= `, ` /= ` or ` %= `; where it is,
/// reads up to the end of the operator, else reads nothing.
pub fn search_for_full_identifier<'a>(s: &str, i: &'a str) -> (r: ParserResult<'a, bool>)
    ensures
        match find_assign(i@, s@) {
            Some(e) => r matches Ok((rest, b)) && rest@ == i@.skip(e as int) && b,
            None => r matches Ok((rest, b)) && rest@ == i@ && !b,
        },
{
    let t = to_chars(i);
    let name = to_chars(s);
    let ops = assign_tags();
    let mut k: usize = 0;
    assert(t@.skip(0) =~= t@);
    loop
        invariant
            k <= t.len(),
            t@ == i@,
            name@ == s@,
            ops@.map_values(|x: Vec<char>| x@) == assign_ops(),
            find_assign(i@, s@) == match find_assign(t@.skip(k as int), s@) {
                Some(e) => Some((e + k) as nat),
                None => None::<nat>,
            },
        decreases t.len() - k,
    {
        if let Some(e) = assign_at_pos(&t, k, &name, &ops) {
            return Ok((suffix(i, e), true));
        }
        if k == t.len() {
            return Ok((i, false));
        }
        assert(t@.skip(k as int).skip(1) =~= t@.skip(k + 1));
        k = k + 1;
    }
}

/// Whether `name` is assigned in the text; reads nothing.
pub fn decl_is_reassigned(i: &str, name: String) -> (r: ParserResult<bool>)
    ensures
        r matches Ok((rest, b)) && rest@ == i@ && b == find_assign(i@, name@) is Some,
{
    let t = to_chars(i);
    let n = to_chars(name.as_str());
    let ops = assign_tags();
    assert(t@.skip(0) =~= t@);
    let b = find_assign_from(&t, 0, &n, &ops);
    Ok((i, b))
}

fn arg_var_name_of(a: &String) -> (r: Vec<char>)
    ensures
        r@ == arg_var_name(a@),
{
    let s = to_chars(a.as_str());
    let colon = to_chars(":");
    let ptr = to_chars(" ptr");
    proof {
        reveal_strlit(":");
    }
    assert(s@.skip(0) =~= s@);
    match find_from(&s, 0, &colon) {
        Some(p) => {
            if starts_with_at(&s, p + 1, &ptr) {
                Vec::new()
            } else {
                let r = crate::text::slice_vec(&s, 0, p);
                assert(s@.subrange(0, p as int) =~= s@.take(p as int));
                r
            }
        },
        None => Vec::new(),
    }
}


/// Reads the first function's text: up to the first `{`, and the block that
/// it opens. Writes that text with a variable `name_var` declared at the top
/// of the block for each parameter `name` that the block assigns again (not
/// for pointers), and with the block using it in place of the parameter.
pub fn check_one_func(i: &str) -> (r: ParserResult<String>)
    requires
        reassigned_func_ok(i@),
    ensures
        match reassigned_func(i@) {
            Some((n, o)) => parsed(r, i@.skip(n as int), o) && n <= i@.len(),
            None => r is Err,
        },
{
    let s = to_chars(i);
    assert(s@.skip(0) =~= s@);
    let (_p, _ne, _e, args) = match scan_fn(&s, 0) {
        Some(x) => x,
        None => return Err(ParseError::Mismatch),
    };
    let lb = to_chars("{");
    let q = match find_from(&s, 0, &lb) {
        Some(q) => q,
        None => return Err(ParseError::Mismatch),
    };
    proof {
        reveal_strlit("{");
    }
    assert(s@.skip(q + 1int) =~= s@.skip((q + 1) as int));
    let b = match body_end(&s, q + 1, 1) {
        Some(b) => b,
        None => return Err(ParseError::Mismatch),
    };
    let mut body = String::new();
    push_range(&mut body, &s, q + 1, b);
    let ghost all = views(args@).map_values(|a: Seq<char>| arg_var_name(a));
    let ghost b0 = body@;
    let ops = assign_tags();
    let mut j: usize = 0;
    assert(all.skip(0) =~= all);
    while j < args.len()
        invariant
            j <= args.len(),
            all == views(args@).map_values(|a: Seq<char>| arg_var_name(a)),
            ops@.map_values(|x: Vec<char>| x@) == assign_ops(),
            var_body(b0, all) == var_body(body@, all.skip(j as int)),
        decreases args.len() - j,
    {
        assert(all.skip(j as int)[0] == arg_var_name(args@[j as int]@));
        assert(all.skip(j as int).drop_first() =~= all.skip(j + 1));
        let n = arg_var_name_of(&args[j]);
        let bc = to_chars(body.as_str());
        assert(bc@.skip(0) =~= bc@);
        if find_assign_from(&bc, 0, &n, &ops) {
            let name = crate::text::string_of(&n);
            let mut new_name = crate::text::string_of(&n);
            new_name.append("_var");
            let mut fresh = String::new();
            fresh.append("\n\tvar ");
            fresh.append(name.as_str());
            fresh.append("_var = ");
            fresh.append(name.as_str());
            fresh.append(";");
            let replaced = search_and_replace_identifier(body.as_str(), name, new_name);
            if let Ok((_, body2)) = replaced {
                fresh.append(body2.as_str());
                body = fresh;
            }
        }
        j = j + 1;
    }
    let mut out = String::new();
    push_range(&mut out, &s, 0, q);
    out.append("{");
    out.append(body.as_str());
    proof {
        assert(all.skip(args.len() as int) =~= Seq::<Seq<char>>::empty());
        assert(s@.subrange(0, q as int) =~= s@.take(q as int));
        assert(s@.skip(q + 1int).take((b - q - 1) as int) =~= s@.subrange(q + 1int, b as int));
    }
    Ok((suffix(i, b), out))
}

/// Rewrites the functions of the text one after the other (see
/// `check_one_func`), up to the first that cannot be read, and copies the
/// rest; it reads the whole input.
pub fn add_var_to_reassigned_args(i: &str) -> (r: ParserResult<String>)
    requires
        reassigned_ok(i@),
    ensures
        parsed(r, Seq::empty(), replaced_reassigned(i@)),
{
    let mut out = String::new();
    let mut rest: &str = i;
    loop
        invariant
            reassigned_ok(rest@),
            replaced_reassigned(i@) == out@ + replaced_reassigned(rest@),
        ensures
            replaced_reassigned(i@) == out@ + rest@,
        decreases rest@.len(),
    {
        match check_one_func(rest) {
            Ok((r2, o)) => {
                if r2.unicode_len() >= rest.unicode_len() {
                    break;
                }
                let ghost n = (reassigned_func(rest@)->0).0;
                assert(r2@ == rest@.skip(n as int));
                assert(replaced_reassigned(rest@) == o@ + replaced_reassigned(r2@));
                out.append(o.as_str());
                rest = r2;
            },
            Err(_) => {
                break;
            },
        }
    }
    out.append(rest);
    proof {
        reveal_strlit("");
        assert(""@ =~= Seq::<char>::empty());
    }
    Ok(("", out))
}


/// Whether every function that `add_var_to_reassigned_args` reads meets
/// `reassigned_func_ok`.
pub fn reassigned_ok_exec(i: &str) -> (b: bool)
    ensures
        b == reassigned_ok(i@),
{
    let s = to_chars(i);
    let lb = to_chars("{");
    proof {
        reveal_strlit("{");
    }
    let mut k: usize = 0;
    assert(s@.skip(0) =~= s@);
    loop
        invariant
            k <= s.len(),
            s@ == i@,
            lb@ == "{"@,
            lb@.len() == 1,
            reassigned_ok(i@) == reassigned_ok(s@.skip(k as int)),
        decreases s.len() - k,
    {
        let ghost t = s@.skip(k as int);
        match scan_fn(&s, k) {
            Some(_) => {
                match find_from(&s, k, &lb) {
                    Some(q) => {
                        assert(t.skip((q - k) + 1) =~= s@.skip(q + 1));
                        if !body_ok_exec(&s, q + 1, 1) {
                            return false;
                        }
                        match body_end(&s, q + 1, 1) {
                            Some(b) => {
                                assert(t.skip((b - k) as int) =~= s@.skip(b as int));
                                k = b;
                            },
                            None => {
                                return true;
                            },
                        }
                    },
                    None => {
                        return false;
                    },
                }
            },
            None => {
                return true;
            },
        }
    }
}

} // verus!
