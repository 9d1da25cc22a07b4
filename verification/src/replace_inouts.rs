//! Rewrites of function signatures in printed WGSL.

use vstd::prelude::*;
use crate::nom_helpers::{
    body_end, body_len, body_ok, body_ok_exec, class_end, identifier_at, lead_len, parsed, replaced_ident,
    search_and_replace_identifier, views, CharClass, ParseError, ParserResult,
};
use crate::text::{
    find_first, find_from, first_in, first_in_from, push_char, push_range, starts_with,
    starts_with_at, suffix, to_chars,
};

verus! {

/// `s` with every occurrence of the non-empty text `p` taken out, read from
/// left to right.
pub open spec fn remove_occurrences(s: Seq<char>, p: Seq<char>) -> Seq<char>
    decreases s.len(),
{
    if s.len() == 0 {
        s
    } else if p.len() > 0 && starts_with(s, p) {
        remove_occurrences(s.skip(p.len() as int), p)
    } else {
        seq![s[0]] + remove_occurrences(s.skip(1), p)
    }
}

/// Takes every `-> ()` (the return type of a function that returns nothing)
/// out of the text; it reads the whole input.
pub fn search_and_replace_void(i: &str) -> (r: ParserResult<String>)
    ensures
        r matches Ok((rest, out)) && rest@ == Seq::<char>::empty() && out@ == remove_occurrences(
            i@,
            "-> ()"@,
        ),
{
    let s = to_chars(i);
    let p = to_chars("-> ()");
    proof {
        reveal_strlit("-> ()");
    }
    let mut out = String::new();
    let mut k: usize = 0;
    assert(s@.skip(0) =~= s@);
    while k < s.len()
        invariant
            k <= s.len(),
            s@ == i@,
            p@ == "-> ()"@,
            p@.len() == 5,
            out@ + remove_occurrences(s@.skip(k as int), p@) == remove_occurrences(s@, p@),
        decreases s.len() - k,
    {
        if starts_with_at(&s, k, &p) {
            assert(s@.skip(k as int).skip(5) =~= s@.skip(k + 5));
            k = k + 5;
        } else {
            let ghost out0 = out@;
            assert(s@.skip(k as int).skip(1) =~= s@.skip(k + 1));
            assert(s@.skip(k as int)[0] == s@[k as int]);
            push_char(&mut out, s[k]);
            assert(out@ + remove_occurrences(s@.skip(k + 1), p@) =~= out0 + remove_occurrences(
                s@.skip(k as int),
                p@,
            ));
            k = k + 1;
        }
    }
    assert(s@.skip(s.len() as int) =~= Seq::<char>::empty());
    assert(out@ + Seq::<char>::empty() =~= out@);
    proof {
        reveal_strlit("");
    }
    Ok(("", out))
}


/// One item of a parameter list read by `function_call_args_anychar2`: up
/// to the next `,` or `)`, or, where there is none, the blanks at the start.
pub open spec fn elem2(s: Seq<char>) -> (nat, Seq<char>) {
    match first_in(s, seq![',', ')']) {
        Some(n) => (n, s.take(n as int)),
        None => (lead_len(s, CharClass::Space), s.take(lead_len(s, CharClass::Space) as int)),
    }
}

/// A separator, `,` with blanks around it, at the start of `s`: its length.
pub open spec fn sep2(s: Seq<char>) -> Option<nat> {
    let a = lead_len(s, CharClass::Space);
    if a < s.len() && s[a as int] == ',' {
        Some(a + 1 + lead_len(s.skip(a + 1int), CharClass::Space))
    } else {
        None
    }
}

/// The items after the first one, each after a separator.
pub open spec fn more2(s: Seq<char>) -> (nat, Seq<Seq<char>>)
    decreases s.len(),
{
    match sep2(s) {
        Some(k) => if 0 < k <= s.len() {
            let (n, e) = elem2(s.skip(k as int));
            if k + n <= s.len() {
                let (m, es) = more2(s.skip(k + n as int));
                (k + n + m, seq![e] + es)
            } else {
                (0, Seq::empty())
            }
        } else {
            (0, Seq::empty())
        },
        None => (0, Seq::empty()),
    }
}

/// A parameter list `(` items `)` at the start of `s`: how many characters
/// it takes and the items.
pub open spec fn simple_args(s: Seq<char>) -> Option<(nat, Seq<Seq<char>>)> {
    if s.len() > 0 && s[0] == '(' {
        let (n, e) = elem2(s.skip(1));
        let (m, es) = more2(s.skip(1 + n as int));
        if 1 + n + m < s.len() && s[1 + n + m as int] == ')' {
            Some((n + m + 2, seq![e] + es))
        } else {
            None
        }
    } else {
        None
    }
}

/// A function header `fn name(params)` at the start of `s`: the name's
/// length, where the header ends and the parameters.
pub open spec fn fn_header(s: Seq<char>) -> Option<(nat, nat, Seq<Seq<char>>)> {
    if starts_with(s, "fn "@) {
        match identifier_at(s.skip(3)) {
            Some(l) => match simple_args(s.skip(3 + l as int)) {
                Some((n, args)) => Some((l, 3 + l + n, args)),
                None => None,
            },
            None => None,
        }
    } else {
        None
    }
}

/// The first function header of `s`: where it starts, the name's length,
/// where it ends and the parameters.
pub open spec fn find_fn(s: Seq<char>) -> Option<(nat, nat, nat, Seq<Seq<char>>)>
    decreases s.len(),
{
    match fn_header(s) {
        Some((l, e, args)) => Some((0nat, l, e, args)),
        None => if s.len() == 0 {
            None
        } else {
            match find_fn(s.skip(1)) {
                Some((p, l, e, args)) => Some((p + 1, l, e + 1, args)),
                None => None,
            }
        },
    }
}

/// A parameter `name: type` written as a pointer, `name: ptr<function, type>`.
pub open spec fn ptr_arg(a: Seq<char>) -> Option<Seq<char>> {
    match find_first(a, ": "@) {
        Some(p) => Some(a.take(p as int) + ": ptr<function, "@ + a.skip(p + 2int) + ">"@),
        None => None,
    }
}

/// A parameter as the rewritten header writes it: an `inout` one as a
/// pointer, the others unchanged.
pub open spec fn inout_arg_text(a: Seq<char>) -> Seq<char> {
    if starts_with(a, "inout "@) {
        match ptr_arg(a.skip(6)) {
            Some(t) => t,
            None => "ERROR: could not parser TYPE of inout arg"@,
        }
    } else {
        a
    }
}

/// The texts joined with `, ` between them.
pub open spec fn joined(xs: Seq<Seq<char>>) -> Seq<char>
    decreases xs.len(),
{
    if xs.len() == 0 {
        Seq::empty()
    } else if xs.len() == 1 {
        xs[0]
    } else {
        xs[0] + ", "@ + joined(xs.drop_first())
    }
}

/// The name of an `inout` parameter.
pub open spec fn inout_name(a: Seq<char>) -> Option<Seq<char>> {
    if starts_with(a, "inout "@) && lead_len(a.skip(6), CharClass::IdentNum) > 0 {
        Some(a.skip(6).take(lead_len(a.skip(6), CharClass::IdentNum) as int))
    } else {
        None
    }
}

/// The body with each `inout` parameter `p` of `args`, in order, read
/// through its pointer as `(*p)`.
pub open spec fn ptr_body(body: Seq<char>, args: Seq<Seq<char>>) -> Seq<char>
    decreases args.len(),
{
    if args.len() == 0 {
        body
    } else {
        let b2 = match inout_name(args[0]) {
            Some(n) => replaced_ident(body, n, "(*"@ + n + ")"@),
            None => body,
        };
        ptr_body(b2, args.drop_first())
    }
}

/// The first function of `s` rewritten: how many characters it takes and
/// the text up to its end, with its `inout` parameters made pointers.
pub open spec fn inout_func(s: Seq<char>) -> Option<(nat, Seq<char>)> {
    match find_fn(s) {
        Some((p, l, e, args)) => match body_len(s.skip(e as int), 0) {
            Some(b) => Some(
                (
                    e + b,
                    s.take(p as int) + "fn "@ + s.subrange(p + 3int, p + 3 + l as int) + "("@
                        + joined(args.map_values(|a: Seq<char>| inout_arg_text(a))) + ")"@
                        + ptr_body(s.subrange(e as int, e + b as int), args),
                ),
            ),
            None => None,
        },
        None => None,
    }
}

/// Reading the body of the first function of `s` does not fail on a brace.
pub open spec fn inout_func_ok(s: Seq<char>) -> bool {
    match find_fn(s) {
        Some((p, l, e, args)) => body_ok(s.skip(e as int), 0),
        None => true,
    }
}

/// Every function that `replace_inouts` reads has a body that does not
/// fail on a brace.
pub open spec fn inouts_ok(s: Seq<char>) -> bool
    decreases s.len(),
{
    inout_func_ok(s) && match inout_func(s) {
        Some((n, o)) => 0 < n <= s.len() ==> inouts_ok(s.skip(n as int)),
        None => true,
    }
}

/// `s` with the functions rewritten one after the other, up to the first
/// that cannot be read, and the rest copied.
pub open spec fn replaced_inouts(s: Seq<char>) -> Seq<char>
    decreases s.len(),
{
    match inout_func(s) {
        Some((n, o)) => if 0 < n <= s.len() {
            o + replaced_inouts(s.skip(n as int))
        } else {
            s
        },
        None => s,
    }
}

proof fn lemma_inout_literals()
    ensures
        "fn "@ == seq!['f', 'n', ' '],
        "inout "@.len() == 6,
        ": "@.len() == 2,
        ", "@.len() == 2,
{
    reveal_strlit("fn ");
    reveal_strlit("inout ");
    reveal_strlit(": ");
    reveal_strlit(", ");
}

fn stop_chars() -> (r: Vec<char>)
    ensures
        r@ == seq![',', ')'],
{
    let mut r: Vec<char> = Vec::new();
    r.push(',');
    r.push(')');
    assert(r@ =~= seq![',', ')']);
    r
}

fn elem2_end(s: &Vec<char>, pos: usize) -> (r: usize)
    requires
        pos <= s.len(),
    ensures
        pos <= r <= s.len(),
        elem2(s@.skip(pos as int)) == ((r - pos) as nat, s@.subrange(pos as int, r as int)),
{
    let ghost t = s@.skip(pos as int);
    let stops = stop_chars();
    match first_in_from(s, pos, &stops) {
        Some(n) => {
            assert(t.take(n - pos) =~= s@.subrange(pos as int, n as int));
            n
        },
        None => {
            let e = class_end(s, pos, CharClass::Space);
            assert(t.take(e - pos) =~= s@.subrange(pos as int, e as int));
            e
        },
    }
}

fn sep2_end(s: &Vec<char>, pos: usize) -> (r: Option<usize>)
    requires
        pos <= s.len(),
    ensures
        match sep2(s@.skip(pos as int)) {
            Some(k) => r == Some((pos + k) as usize) && pos + k <= s.len(),
            None => r is None,
        },
{
    let ghost t = s@.skip(pos as int);
    let a = class_end(s, pos, CharClass::Space);
    if a < s.len() && s[a] == ',' {
        assert(t[(a - pos) as int] == s@[a as int]);
        assert(t.skip((a - pos) + 1) =~= s@.skip(a + 1));
        let b = class_end(s, a + 1, CharClass::Space);
        Some(b)
    } else {
        assert(a < s.len() ==> t[(a - pos) as int] == s@[a as int]);
        None
    }
}

fn simple_args_at(s: &Vec<char>, pos: usize) -> (r: Option<(usize, Vec<String>)>)
    requires
        pos <= s.len(),
    ensures
        match simple_args(s@.skip(pos as int)) {
            Some((n, args)) => r matches Some((e, out)) && e == pos + n && e <= s.len() && views(
                out@,
            ) == args,
            None => r is None,
        },
{
    let ghost t = s@.skip(pos as int);
    if pos == s.len() || s[pos] != '(' {
        return None;
    }
    assert(t.skip(1) =~= s@.skip(pos + 1));
    let e1 = elem2_end(s, pos + 1);
    let mut out: Vec<String> = Vec::new();
    let mut first = String::new();
    push_range(&mut first, s, pos + 1, e1);
    out.push(first);
    let ghost v1 = s@.subrange(pos + 1, e1 as int);
    assert(t.skip(1 + (e1 - pos - 1)) =~= s@.skip(e1 as int));
    let mut k = e1;
    let ghost mut got: Seq<Seq<char>> = seq![v1];
    loop
        invariant
            e1 <= k <= s.len(),
            views(out@) == got,
            more2(s@.skip(e1 as int)).0 == (k - e1) + more2(s@.skip(k as int)).0,
            seq![v1] + more2(s@.skip(e1 as int)).1 == got + more2(s@.skip(k as int)).1,
        ensures
            e1 <= k <= s.len(),
            views(out@) == got,
            more2(s@.skip(e1 as int)).0 == k - e1,
            seq![v1] + more2(s@.skip(e1 as int)).1 == got,
        decreases s.len() - k,
    {
        let ghost u = s@.skip(k as int);
        match sep2_end(s, k) {
            Some(b) => {
                if b == k {
                    assert(got + Seq::<Seq<char>>::empty() =~= got);
                    break;
                }
                assert(u.skip(b - k) =~= s@.skip(b as int));
                let e = elem2_end(s, b);
                assert(u.skip((b - k) + (e - b)) =~= s@.skip(e as int));
                let mut item = String::new();
                push_range(&mut item, s, b, e);
                out.push(item);
                proof {
                    let ghost w = s@.subrange(b as int, e as int);
                    assert(views(out@) =~= got.push(w));
                    assert(got.push(w) + more2(s@.skip(e as int)).1 =~= got + (seq![w] + more2(
                        s@.skip(e as int),
                    ).1));
                    got = got.push(w);
                }
                k = e;
            },
            None => {
                assert(got + Seq::<Seq<char>>::empty() =~= got);
                break;
            },
        }
    }
    if k < s.len() && s[k] == ')' {
        assert(t[(k - pos) as int] == s@[k as int]);
        Some((k + 1, out))
    } else {
        assert(k < s.len() ==> t[(k - pos) as int] == s@[k as int]);
        None
    }
}

fn fn_header_at(s: &Vec<char>, pos: usize) -> (r: Option<(usize, usize, Vec<String>)>)
    requires
        pos <= s.len(),
    ensures
        match fn_header(s@.skip(pos as int)) {
            Some((l, e, args)) => r matches Some((ne, e2, out)) && ne == pos + 3 + l && e2 == pos + e
                && ne <= e2 <= s.len() && views(out@) == args,
            None => r is None,
        },
{
    proof {
        lemma_inout_literals();
    }
    let ghost t = s@.skip(pos as int);
    let kw = to_chars("fn ");
    if !starts_with_at(s, pos, &kw) {
        return None;
    }
    assert(t.skip(3) =~= s@.skip(pos + 3));
    match crate::nom_helpers::identifier_end(s, pos + 3) {
        Some(ne) => {
            assert(t.skip(3 + (ne - pos - 3)) =~= s@.skip(ne as int));
            match simple_args_at(s, ne) {
                Some((e, out)) => Some((ne, e, out)),
                None => None,
            }
        },
        None => None,
    }
}

pub(crate) fn scan_fn(s: &Vec<char>, from: usize) -> (r: Option<(usize, usize, usize, Vec<String>)>)
    requires
        from <= s.len(),
    ensures
        match find_fn(s@.skip(from as int)) {
            Some((p, l, e, args)) => r matches Some((q, ne, e2, out)) && q == from + p && ne == q + 3
                + l && e2 == from + e && ne <= e2 <= s.len() && views(out@) == args,
            None => r is None,
        },
{
    let mut k = from;
    loop
        invariant
            from <= k <= s.len(),
            find_fn(s@.skip(from as int)) == match find_fn(s@.skip(k as int)) {
                Some((p, l, e, args)) => Some(
                    ((p + (k - from)) as nat, l, (e + (k - from)) as nat, args),
                ),
                None => None,
            },
        decreases s.len() - k,
    {
        if let Some((ne, e, out)) = fn_header_at(s, k) {
            return Some((k, ne, e, out));
        }
        if k == s.len() {
            return None;
        }
        assert(s@.skip(k as int).skip(1) =~= s@.skip(k + 1));
        k = k + 1;
    }
}


/// Reads up to the next `,` or `)`, which it leaves unread.
pub fn argument1_simple(i: &str) -> (r: ParserResult<String>)
    ensures
        match first_in(i@, seq![',', ')']) {
            Some(n) => parsed(r, i@.skip(n as int), i@.take(n as int)),
            None => r is Err,
        },
{
    let s = to_chars(i);
    let stops = stop_chars();
    assert(s@.skip(0) =~= s@);
    match first_in_from(&s, 0, &stops) {
        Some(n) => {
            let mut out = String::new();
            push_range(&mut out, &s, 0, n);
            assert(s@.subrange(0, n as int) =~= s@.take(n as int));
            Ok((suffix(i, n), out))
        },
        None => Err(ParseError::Mismatch),
    }
}

/// Reads a parameter list, `(` items separated by `,` `)`, where an item is
/// the text up to the next `,` or `)`; gives the items.
pub fn function_call_args_anychar2(i: &str) -> (r: ParserResult<Vec<String>>)
    ensures
        match simple_args(i@) {
            Some((n, args)) => r matches Ok((rest, out)) && rest@ == i@.skip(n as int) && views(out@)
                == args,
            None => r is Err,
        },
{
    let s = to_chars(i);
    assert(s@.skip(0) =~= s@);
    match simple_args_at(&s, 0) {
        Some((e, out)) => Ok((suffix(i, e), out)),
        None => Err(ParseError::Mismatch),
    }
}

/// Reads `inout ` and the parameter's name, and gives the name.
pub fn check_inout_arg(i: &str) -> (r: ParserResult<String>)
    ensures
        match inout_name(i@) {
            Some(n) => parsed(r, i@.skip(6 + n.len() as int), n),
            None => r is Err,
        },
{
    proof {
        lemma_inout_literals();
    }
    let s = to_chars(i);
    let kw = to_chars("inout ");
    if !starts_with_at(&s, 0, &kw) {
        assert(s@.skip(0) =~= s@);
        return Err(ParseError::Mismatch);
    }
    assert(s@.skip(0) =~= s@);
    let e = class_end(&s, 6, CharClass::IdentNum);
    if e == 6 {
        return Err(ParseError::Mismatch);
    }
    let mut out = String::new();
    push_range(&mut out, &s, 6, e);
    assert(s@.skip(6).take((e - 6) as int) =~= s@.subrange(6, e as int));
    assert(s@.skip(6 + (e - 6)) =~= s@.skip(e as int));
    Ok((suffix(i, e), out))
}

fn ptr_text(a: &Vec<char>, from: usize) -> (r: Option<String>)
    requires
        from <= a.len(),
    ensures
        match ptr_arg(a@.skip(from as int)) {
            Some(t) => r matches Some(x) && x@ == t,
            None => r is None,
        },
{
    proof {
        lemma_inout_literals();
    }
    let ghost t = a@.skip(from as int);
    let sep = to_chars(": ");
    match find_from(a, from, &sep) {
        Some(p) => {
            let mut out = String::new();
            push_range(&mut out, a, from, p);
            out.append(": ptr<function, ");
            push_range(&mut out, a, p + 2, a.len());
            out.append(">");
            assert(t.take(p - from) =~= a@.subrange(from as int, p as int));
            assert(t.skip((p - from) + 2) =~= a@.subrange(p + 2, a.len() as int));
            Some(out)
        },
        None => None,
    }
}

/// Reads a parameter `name: type` and writes it as a pointer,
/// `name: ptr<function, type>`; it reads the whole input.
pub fn add_ptr_to_arg(i: &str) -> (r: ParserResult<String>)
    ensures
        match ptr_arg(i@) {
            Some(t) => parsed(r, Seq::empty(), t),
            None => r is Err,
        },
{
    let s = to_chars(i);
    assert(s@.skip(0) =~= s@);
    match ptr_text(&s, 0) {
        Some(t) => {
            proof {
                reveal_strlit("");
                assert(""@ =~= Seq::<char>::empty());
            }
            Ok(("", t))
        },
        None => Err(ParseError::Mismatch),
    }
}

fn inout_arg_string(a: &String) -> (r: String)
    ensures
        r@ == inout_arg_text(a@),
{
    proof {
        lemma_inout_literals();
    }
    let s = to_chars(a.as_str());
    let kw = to_chars("inout ");
    if starts_with_at(&s, 0, &kw) {
        assert(s@.skip(0) =~= s@);
        match ptr_text(&s, 6) {
            Some(t) => t,
            None => {
                let mut e = String::new();
                e.append("ERROR: could not parser TYPE of inout arg");
                e
            },
        }
    } else {
        assert(s@.skip(0) =~= s@);
        let mut c = String::new();
        c.append(a.as_str());
        c
    }
}

proof fn lemma_joined_push(xs: Seq<Seq<char>>, x: Seq<char>)
    ensures
        joined(xs.push(x)) == if xs.len() == 0 {
            x
        } else {
            joined(xs) + ", "@ + x
        },
    decreases xs.len(),
{
    if xs.len() == 0 {
        assert(xs.push(x) =~= seq![x]);
    } else if xs.len() == 1 {
        assert(xs.push(x).drop_first() =~= seq![x]);
        assert(xs.push(x)[0] == xs[0]);
        assert(joined(xs.push(x)) == xs[0] + ", "@ + joined(seq![x]));
    } else {
        lemma_joined_push(xs.drop_first(), x);
        assert(xs.push(x).drop_first() =~= xs.drop_first().push(x));
        assert(xs.push(x)[0] == xs[0]);
        assert(joined(xs.push(x)) == xs[0] + ", "@ + joined(xs.drop_first().push(x)));
        assert(xs[0] + ", "@ + (joined(xs.drop_first()) + ", "@ + x) =~= (xs[0] + ", "@ + joined(
            xs.drop_first(),
        )) + ", "@ + x);
    }
}

fn header_args(args: &Vec<String>) -> (r: String)
    ensures
        r@ == joined(views(args@).map_values(|a: Seq<char>| inout_arg_text(a))),
{
    let ghost all = views(args@).map_values(|a: Seq<char>| inout_arg_text(a));
    let mut out = String::new();
    let mut j: usize = 0;
    assert(all.take(0) =~= Seq::<Seq<char>>::empty());
    while j < args.len()
        invariant
            j <= args.len(),
            all == views(args@).map_values(|a: Seq<char>| inout_arg_text(a)),
            out@ == joined(all.take(j as int)),
        decreases args.len() - j,
    {
        let t = inout_arg_string(&args[j]);
        proof {
            lemma_joined_push(all.take(j as int), all[j as int]);
            assert(all.take(j + 1) =~= all.take(j as int).push(all[j as int]));
        }
        if j > 0 {
            out.append(", ");
        }
        out.append(t.as_str());
        j = j + 1;
    }
    assert(all.take(args.len() as int) =~= all);
    out
}

fn inout_name_of(a: &String) -> (r: Option<String>)
    ensures
        match inout_name(a@) {
            Some(n) => r matches Some(x) && x@ == n,
            None => r is None,
        },
{
    match check_inout_arg(a.as_str()) {
        Ok((_, n)) => Some(n),
        Err(_) => None,
    }
}

/// Reads up to the end of the first function: writes its header with each
/// `inout` parameter as a pointer, and its body with each such parameter
/// `p` read as `(*p)`.
pub fn check_one_func(i: &str) -> (r: ParserResult<String>)
    requires
        inout_func_ok(i@),
    ensures
        match inout_func(i@) {
            Some((n, o)) => parsed(r, i@.skip(n as int), o) && n <= i@.len(),
            None => r is Err,
        },
{
    let s = to_chars(i);
    assert(s@.skip(0) =~= s@);
    let (p, ne, e, args) = match scan_fn(&s, 0) {
        Some(x) => x,
        None => return Err(ParseError::Mismatch),
    };
    let b = match body_end(&s, e, 0) {
        Some(b) => b,
        None => return Err(ParseError::Mismatch),
    };
    let mut out = String::new();
    push_range(&mut out, &s, 0, p);
    out.append("fn ");
    push_range(&mut out, &s, p + 3, ne);
    out.append("(");
    let h = header_args(&args);
    out.append(h.as_str());
    out.append(")");
    let mut body = String::new();
    push_range(&mut body, &s, e, b);
    let ghost all = views(args@);
    let ghost b0 = body@;
    let mut j: usize = 0;
    assert(all.skip(0) =~= all);
    while j < args.len()
        invariant
            j <= args.len(),
            all == views(args@),
            ptr_body(b0, all) == ptr_body(body@, all.skip(j as int)),
        decreases args.len() - j,
    {
        assert(all.skip(j as int)[0] == args@[j as int]@);
        assert(all.skip(j as int).drop_first() =~= all.skip(j + 1));
        if let Some(name) = inout_name_of(&args[j]) {
            let mut ptr = String::new();
            ptr.append("(*");
            ptr.append(name.as_str());
            ptr.append(")");
            let replaced = search_and_replace_identifier(body.as_str(), name, ptr);
            if let Ok((_, body2)) = replaced {
                body = body2;
            }
        }
        j = j + 1;
    }
    out.append(body.as_str());
    proof {
        assert(all.skip(args.len() as int) =~= Seq::<Seq<char>>::empty());
        assert(s@.subrange(0, p as int) =~= s@.take(p as int));
        assert(s@.skip(e as int).take((b - e) as int) =~= s@.subrange(e as int, b as int));
        assert(s@.subrange(e as int, b as int) =~= s@.subrange(e as int, e + (b - e)));
    }
    Ok((suffix(i, b), out))
}

/// Rewrites the functions of the text one after the other, up to the first
/// that cannot be read, and copies the rest; it reads the whole input.
pub fn replace_inouts(i: &str) -> (r: ParserResult<String>)
    requires
        inouts_ok(i@),
    ensures
        parsed(r, Seq::empty(), replaced_inouts(i@)),
{
    let mut out = String::new();
    let mut rest: &str = i;
    loop
        invariant
            inouts_ok(rest@),
            replaced_inouts(i@) == out@ + replaced_inouts(rest@),
        ensures
            replaced_inouts(i@) == out@ + rest@,
        decreases rest@.len(),
    {
        match check_one_func(rest) {
            Ok((r2, o)) => {
                if r2.unicode_len() >= rest.unicode_len() {
                    break;
                }
                let ghost n = (inout_func(rest@)->0).0;
                assert(r2@ == rest@.skip(n as int));
                assert(0 < n <= rest@.len());
                assert(replaced_inouts(rest@) == o@ + replaced_inouts(r2@));
                out.append(o.as_str());
                rest = r2;
            },
            Err(_) => {
                break;
            },
        }
    }
    out.append(rest);
    proof {
        reveal_strlit("");
        assert(""@ =~= Seq::<char>::empty());
    }
    Ok(("", out))
}


/// Whether every function that `replace_inouts` reads has a body that does
/// not fail on a brace.
pub fn inouts_ok_exec(i: &str) -> (b: bool)
    ensures
        b == inouts_ok(i@),
{
    let s = to_chars(i);
    let mut k: usize = 0;
    assert(s@.skip(0) =~= s@);
    loop
        invariant
            k <= s.len(),
            s@ == i@,
            inouts_ok(i@) == inouts_ok(s@.skip(k as int)),
        decreases s.len() - k,
    {
        let ghost t = s@.skip(k as int);
        match scan_fn(&s, k) {
            Some((_p, _ne, e, _args)) => {
                assert(t.skip((e - k) as int) =~= s@.skip(e as int));
                if !body_ok_exec(&s, e, 0) {
                    return false;
                }
                match body_end(&s, e, 0) {
                    Some(b) => {
                        assert(t.skip((b - k) as int) =~= s@.skip(b as int));
                        k = b;
                    },
                    None => {
                        return true;
                    },
                }
            },
            None => {
                return true;
            },
        }
    }
}

} // verus!
