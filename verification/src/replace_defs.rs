//! Turns the flag lines `#define NAME` into `bool NAME = true;` (and the
//! commented ones, `// #define NAME`, into `bool NAME = false;`), and the
//! `#ifdef`, `#else` and `#endif` lines into `if`/`else` blocks.

use vstd::prelude::*;
use crate::nom_helpers::{class_end, lead_len, parsed, CharClass, ParseError, ParserResult};
use crate::text::{push_range, starts_with, starts_with_at, suffix, to_chars};

verus! {

/// `// #define ` at the start of `s`, with blanks allowed before `//` and
/// between the words, and at least one blank after `#define`: its length.
pub open spec fn commented_define_at(s: Seq<char>) -> Option<nat> {
    let a = lead_len(s, CharClass::Blank);
    let b = lead_len(s.skip(a + 2int), CharClass::Blank);
    let c = lead_len(s.skip(a + 2 + b + 7int), CharClass::Blank);
    if starts_with(s.skip(a as int), "//"@) && starts_with(s.skip(a + 2 + b as int), "#define"@)
        && c > 0 {
        Some(a + 2 + b + 7 + c)
    } else {
        None
    }
}

/// `#define ` at the start of `s`, with blanks allowed before it and at
/// least one blank after it: its length.
pub open spec fn plain_define_at(s: Seq<char>) -> Option<nat> {
    let a = lead_len(s, CharClass::Blank);
    let c = lead_len(s.skip(a + 7int), CharClass::Blank);
    if starts_with(s.skip(a as int), "#define"@) && c > 0 {
        Some(a + 7 + c)
    } else {
        None
    }
}

/// The commented or the plain form of `#define ` at the start of `s`.
pub open spec fn define_tag_at(s: Seq<char>, commented: bool) -> Option<nat> {
    if commented {
        commented_define_at(s)
    } else {
        plain_define_at(s)
    }
}

/// The first `#define ` of `s` (commented or plain): where it starts and
/// where it ends.
pub open spec fn find_define(s: Seq<char>, commented: bool) -> Option<(nat, nat)>
    decreases s.len(),
{
    match define_tag_at(s, commented) {
        Some(k) => Some((0nat, k)),
        None => if s.len() == 0 {
            None
        } else {
            match find_define(s.skip(1), commented) {
                Some((p, e)) => Some((p + 1, e + 1)),
                None => None,
            }
        },
    }
}

/// A flag's name alone on its line, `NAME` then blanks then a line feed, at
/// the start of `s`: how many characters it takes and the name.
pub open spec fn flag_define(s: Seq<char>) -> Option<(nat, Seq<char>)> {
    let l = lead_len(s, CharClass::IdentNum);
    let b = lead_len(s.skip(l as int), CharClass::Blank);
    if l > 0 && l + b < s.len() && s[l + b as int] == '\n' {
        Some((l + b + 1, s.take(l as int)))
    } else {
        None
    }
}

/// The declaration that replaces a flag line.
pub open spec fn flag_text(name: Seq<char>, commented: bool) -> Seq<char> {
    if commented {
        "bool "@ + name + " = false;\n"@
    } else {
        "bool  "@ + name + " = true;\n"@
    }
}

/// Up to the end of the first flag line: how many characters that takes and
/// the text with the line replaced by its declaration. `None` where the
/// first `#define ` is not followed by a flag's name alone on its line.
pub open spec fn def_step(s: Seq<char>, commented: bool) -> Option<(nat, Seq<char>)> {
    match find_define(s, commented) {
        Some((p, e)) => match flag_define(s.skip(e as int)) {
            Some((n, name)) => Some((e + n, s.take(p as int) + flag_text(name, commented))),
            None => None,
        },
        None => None,
    }
}

/// `s` with its flag lines (commented or plain) replaced one after the
/// other, up to the first `#define ` that is not a flag line.
pub open spec fn defs_pass(s: Seq<char>, commented: bool) -> Seq<char>
    decreases s.len(),
{
    match def_step(s, commented) {
        Some((n, o)) => if 0 < n <= s.len() {
            o + defs_pass(s.skip(n as int), commented)
        } else {
            s
        },
        None => s,
    }
}

/// `s` with its commented flag lines replaced, then its plain ones.
pub open spec fn replaced_defs(s: Seq<char>) -> Seq<char> {
    defs_pass(defs_pass(s, true), false)
}

proof fn lemma_def_literals()
    ensures
        "//"@ == seq!['/', '/'],
        "#define"@.len() == 7,
        "#ifdef"@.len() == 6,
        "#else"@.len() == 5,
        "#endif"@.len() == 6,
{
    reveal_strlit("//");
    reveal_strlit("#define");
    reveal_strlit("#ifdef");
    reveal_strlit("#else");
    reveal_strlit("#endif");
}

fn define_tag_pos(
    s: &Vec<char>,
    pos: usize,
    commented: bool,
    slashes: &Vec<char>,
    kw: &Vec<char>,
) -> (r: Option<usize>)
    requires
        pos <= s.len(),
        slashes@ == "//"@,
        kw@ == "#define"@,
    ensures
        match define_tag_at(s@.skip(pos as int), commented) {
            Some(k) => r == Some((pos + k) as usize) && pos + k <= s.len(),
            None => r is None,
        },
{
    proof {
        lemma_def_literals();
    }
    let ghost t = s@.skip(pos as int);
    let a = class_end(s, pos, CharClass::Blank);
    assert(t.skip((a - pos) as int) =~= s@.skip(a as int));
    let mut k = a;
    if commented {
        if !starts_with_at(s, a, slashes) {
            return None;
        }
        assert(t.skip((a - pos) + 2) =~= s@.skip(a + 2));
        k = class_end(s, a + 2, CharClass::Blank);
    }
    assert(t.skip((k - pos) as int) =~= s@.skip(k as int));
    if !starts_with_at(s, k, kw) {
        return None;
    }
    assert(t.skip((k - pos) + 7) =~= s@.skip(k + 7));
    let c = class_end(s, k + 7, CharClass::Blank);
    if c == k + 7 {
        return None;
    }
    Some(c)
}

fn scan_define(s: &Vec<char>, from: usize, commented: bool) -> (r: Option<(usize, usize)>)
    requires
        from <= s.len(),
    ensures
        match find_define(s@.skip(from as int), commented) {
            Some((p, e)) => r == Some(((from + p) as usize, (from + e) as usize)) && from + p <= from
                + e <= s.len(),
            None => r is None,
        },
{
    let slashes = to_chars("//");
    let kw = to_chars("#define");
    let mut k = from;
    loop
        invariant
            from <= k <= s.len(),
            slashes@ == "//"@,
            kw@ == "#define"@,
            find_define(s@.skip(from as int), commented) == match find_define(
                s@.skip(k as int),
                commented,
            ) {
                Some((p, e)) => Some(((p + (k - from)) as nat, (e + (k - from)) as nat)),
                None => None,
            },
        decreases s.len() - k,
    {
        if let Some(e) = define_tag_pos(s, k, commented, &slashes, &kw) {
            return Some((k, e));
        }
        if k == s.len() {
            return None;
        }
        assert(s@.skip(k as int).skip(1) =~= s@.skip(k + 1));
        k = k + 1;
    }
}

fn flag_define_pos(s: &Vec<char>, pos: usize) -> (r: Option<(usize, usize)>)
    requires
        pos <= s.len(),
    ensures
        match flag_define(s@.skip(pos as int)) {
            Some((n, name)) => r matches Some((e, ne)) && e == pos + n && e <= s.len() && pos < ne
                <= e && name == s@.subrange(pos as int, ne as int),
            None => r is None,
        },
{
    let ghost t = s@.skip(pos as int);
    let l = class_end(s, pos, CharClass::IdentNum);
    assert(t.skip((l - pos) as int) =~= s@.skip(l as int));
    let b = class_end(s, l, CharClass::Blank);
    if l > pos && b < s.len() && s[b] == '\n' {
        assert(t[(b - pos) as int] == s@[b as int]);
        assert(t.take((l - pos) as int) =~= s@.subrange(pos as int, l as int));
        Some((b + 1, l))
    } else {
        assert(b < s.len() ==> t[(b - pos) as int] == s@[b as int]);
        None
    }
}

fn def_step_pos(s: &Vec<char>, pos: usize, commented: bool, out: &mut String) -> (r: Option<usize>)
    requires
        pos <= s.len(),
    ensures
        match def_step(s@.skip(pos as int), commented) {
            Some((n, o)) => r == Some((pos + n) as usize) && pos + n <= s.len() && final(out)@
                == old(out)@ + o,
            None => r is None && final(out)@ == old(out)@,
        },
{
    let ghost t = s@.skip(pos as int);
    match scan_define(s, pos, commented) {
        Some((p, e)) => {
            assert(t.skip((e - pos) as int) =~= s@.skip(e as int));
            match flag_define_pos(s, e) {
                Some((f, ne)) => {
                    push_range(out, s, pos, p);
                    if commented {
                        out.append("bool ");
                    } else {
                        out.append("bool  ");
                    }
                    push_range(out, s, e, ne);
                    if commented {
                        out.append(" = false;\n");
                    } else {
                        out.append(" = true;\n");
                    }
                    assert(t.take((p - pos) as int) =~= s@.subrange(pos as int, p as int));
                    Some(f)
                },
                None => None,
            }
        },
        None => None,
    }
}

fn get_one_define(i: &str) -> (r: ParserResult<String>)
    ensures
        match flag_define(i@) {
            Some((n, name)) => parsed(r, i@.skip(n as int), name),
            None => r is Err,
        },
{
    let s = to_chars(i);
    assert(s@.skip(0) =~= s@);
    match flag_define_pos(&s, 0) {
        Some((e, ne)) => {
            let mut out = String::new();
            push_range(&mut out, &s, 0, ne);
            Ok((suffix(i, e), out))
        },
        None => Err(ParseError::Mismatch),
    }
}

fn find_define_tag_kind(i: &str, commented: bool) -> (r: ParserResult<String>)
    ensures
        match def_step(i@, commented) {
            Some((n, o)) => parsed(r, i@.skip(n as int), o),
            None => r is Err,
        },
{
    let s = to_chars(i);
    assert(s@.skip(0) =~= s@);
    let mut out = String::new();
    match def_step_pos(&s, 0, commented, &mut out) {
        Some(e) => Ok((suffix(i, e), out)),
        None => Err(ParseError::Mismatch),
    }
}

fn find_non_comment_define_tag(i: &str) -> (r: ParserResult<String>)
    ensures
        match def_step(i@, false) {
            Some((n, o)) => parsed(r, i@.skip(n as int), o),
            None => r is Err,
        },
{
    find_define_tag_kind(i, false)
}

fn find_commented_define_tag(i: &str) -> (r: ParserResult<String>)
    ensures
        match def_step(i@, true) {
            Some((n, o)) => parsed(r, i@.skip(n as int), o),
            None => r is Err,
        },
{
    find_define_tag_kind(i, true)
}

#[verifier::rlimit(40)]
fn defs_pass_string(i: &str, commented: bool) -> (r: String)
    ensures
        r@ == defs_pass(i@, commented),
{
    let s = to_chars(i);
    let mut out = String::new();
    let mut k: usize = 0;
    assert(s@.skip(0) =~= s@);
    loop
        invariant
            k <= s.len(),
            s@ == i@,
            defs_pass(i@, commented) == out@ + defs_pass(s@.skip(k as int), commented),
        ensures
            k <= s.len(),
            defs_pass(i@, commented) == out@ + s@.skip(k as int),
        decreases s.len() - k,
    {
        let ghost t = s@.skip(k as int);
        match def_step_pos(&s, k, commented, &mut out) {
            Some(e) => {
                proof {
                    let ghost n = (e - k) as nat;
                    let ghost o = (def_step(t, commented)->0).1;
                    assert(n > 0);
                    assert(defs_pass(t, commented) == o + defs_pass(t.skip(n as int), commented));
                    assert(t.skip(n as int) =~= s@.skip(e as int));
                }
                k = e;
            },
            None => {
                assert(defs_pass(t, commented) == t);
                break;
            },
        }
    }
    push_range(&mut out, &s, k, s.len());
    assert(s@.subrange(k as int, s.len() as int) =~= s@.skip(k as int));
    out
}

/// Replaces the commented flag lines `// #define NAME` by
/// `bool NAME = false;`, then the plain ones `#define NAME` by
/// `bool  NAME = true;`, each up to the first `#define ` that is not a flag
/// line; it reads the whole input.
pub fn defs_parser(i: &str) -> (r: ParserResult<String>)
    ensures
        parsed(r, Seq::empty(), replaced_defs(i@)),
{
    let commented_replaced_defs = defs_pass_string(i, true);
    let new_script = defs_pass_string(commented_replaced_defs.as_str(), false);
    proof {
        reveal_strlit("");
        assert(""@ =~= Seq::<char>::empty());
    }
    Ok(("", new_script))
}


/// `#ifdef` and at least one blank at the start of `s`: its length.
pub open spec fn ifdef_at(s: Seq<char>) -> Option<nat> {
    let c = lead_len(s.skip(6), CharClass::Blank);
    if starts_with(s, "#ifdef"@) && c > 0 {
        Some(6 + c)
    } else {
        None
    }
}

/// `#else` (`true`) or `#endif` (`false`) at the start of `s`: its length
/// and which it is.
pub open spec fn else_endif_at(s: Seq<char>) -> Option<(nat, bool)> {
    if starts_with(s, "#else"@) {
        Some((5, true))
    } else if starts_with(s, "#endif"@) {
        Some((6, false))
    } else {
        None
    }
}

/// The first `#ifdef ` of `s`: where it starts and where it ends.
pub open spec fn find_ifdef(s: Seq<char>) -> Option<(nat, nat)>
    decreases s.len(),
{
    match ifdef_at(s) {
        Some(k) => Some((0nat, k)),
        None => if s.len() == 0 {
            None
        } else {
            match find_ifdef(s.skip(1)) {
                Some((p, e)) => Some((p + 1, e + 1)),
                None => None,
            }
        },
    }
}

/// The first `#else` or `#endif` of `s`: where it starts, where it ends and
/// whether it is `#else`.
pub open spec fn find_else_endif(s: Seq<char>) -> Option<(nat, nat, bool)>
    decreases s.len(),
{
    match else_endif_at(s) {
        Some((k, b)) => Some((0nat, k, b)),
        None => if s.len() == 0 {
            None
        } else {
            match find_else_endif(s.skip(1)) {
                Some((p, e, b)) => Some((p + 1, e + 1, b)),
                None => None,
            }
        },
    }
}

/// Up to the end of the first `#ifdef NAME`: how many characters that takes
/// and the text with it written `if (NAME) {`.
pub open spec fn ifdef_step(s: Seq<char>) -> Option<(nat, Seq<char>)> {
    match find_ifdef(s) {
        Some((p, e)) => {
            let l = lead_len(s.skip(e as int), CharClass::IdentNum);
            if l > 0 {
                Some((e + l, s.take(p as int) + "if ("@ + s.subrange(e as int, e + l as int) + ") {"@))
            } else {
                None
            }
        },
        None => None,
    }
}

/// Up to the end of the first `#else` or `#endif`: how many characters that
/// takes and the text with it written `} else {` or `}`.
pub open spec fn else_endif_step(s: Seq<char>) -> Option<(nat, Seq<char>)> {
    match find_else_endif(s) {
        Some((p, e, b)) => Some((e, s.take(p as int) + if b {
            "} else {"@
        } else {
            "}"@
        })),
        None => None,
    }
}

/// `s` with its `#ifdef NAME` written as `if (NAME) {`, up to the first that
/// is not followed by a name.
pub open spec fn ifdefs_pass(s: Seq<char>) -> Seq<char>
    decreases s.len(),
{
    match ifdef_step(s) {
        Some((n, o)) => if 0 < n <= s.len() {
            o + ifdefs_pass(s.skip(n as int))
        } else {
            s
        },
        None => s,
    }
}

/// `s` with its `#else` written as `} else {` and its `#endif` as `}`.
pub open spec fn else_endif_pass(s: Seq<char>) -> Seq<char>
    decreases s.len(),
{
    match else_endif_step(s) {
        Some((n, o)) => if 0 < n <= s.len() {
            o + else_endif_pass(s.skip(n as int))
        } else {
            s
        },
        None => s,
    }
}

fn scan_ifdef(s: &Vec<char>, from: usize, kw: &Vec<char>) -> (r: Option<(usize, usize)>)
    requires
        from <= s.len(),
        kw@ == "#ifdef"@,
    ensures
        match find_ifdef(s@.skip(from as int)) {
            Some((p, e)) => r == Some(((from + p) as usize, (from + e) as usize)) && from + p <= from
                + e <= s.len(),
            None => r is None,
        },
{
    proof {
        lemma_def_literals();
    }
    let mut k = from;
    loop
        invariant
            from <= k <= s.len(),
            kw@ == "#ifdef"@,
            kw@.len() == 6,
            find_ifdef(s@.skip(from as int)) == match find_ifdef(s@.skip(k as int)) {
                Some((p, e)) => Some(((p + (k - from)) as nat, (e + (k - from)) as nat)),
                None => None,
            },
        decreases s.len() - k,
    {
        let ghost t = s@.skip(k as int);
        if starts_with_at(s, k, kw) {
            assert(t.skip(6) =~= s@.skip(k + 6));
            let c = class_end(s, k + 6, CharClass::Blank);
            if c > k + 6 {
                return Some((k, c));
            }
        }
        if k == s.len() {
            return None;
        }
        assert(t.skip(1) =~= s@.skip(k + 1));
        k = k + 1;
    }
}

fn scan_else_endif(s: &Vec<char>, from: usize, kw_else: &Vec<char>, kw_endif: &Vec<char>) -> (r: Option<
    (usize, usize, bool),
>)
    requires
        from <= s.len(),
        kw_else@ == "#else"@,
        kw_endif@ == "#endif"@,
    ensures
        match find_else_endif(s@.skip(from as int)) {
            Some((p, e, b)) => r == Some(((from + p) as usize, (from + e) as usize, b)) && from + p
                <= from + e <= s.len(),
            None => r is None,
        },
{
    proof {
        lemma_def_literals();
    }
    let mut k = from;
    loop
        invariant
            from <= k <= s.len(),
            kw_else@ == "#else"@,
            kw_endif@ == "#endif"@,
            kw_else@.len() == 5,
            kw_endif@.len() == 6,
            find_else_endif(s@.skip(from as int)) == match find_else_endif(s@.skip(k as int)) {
                Some((p, e, b)) => Some(((p + (k - from)) as nat, (e + (k - from)) as nat, b)),
                None => None,
            },
        decreases s.len() - k,
    {
        if starts_with_at(s, k, kw_else) {
            return Some((k, k + 5, true));
        }
        if starts_with_at(s, k, kw_endif) {
            return Some((k, k + 6, false));
        }
        if k == s.len() {
            return None;
        }
        assert(s@.skip(k as int).skip(1) =~= s@.skip(k + 1));
        k = k + 1;
    }
}

fn ifdef_step_pos(s: &Vec<char>, pos: usize, kw: &Vec<char>, out: &mut String) -> (r: Option<usize>)
    requires
        pos <= s.len(),
        kw@ == "#ifdef"@,
    ensures
        match ifdef_step(s@.skip(pos as int)) {
            Some((n, o)) => r == Some((pos + n) as usize) && pos + n <= s.len() && final(out)@
                == old(out)@ + o,
            None => r is None && final(out)@ == old(out)@,
        },
{
    let ghost t = s@.skip(pos as int);
    match scan_ifdef(s, pos, kw) {
        Some((p, e)) => {
            assert(t.skip((e - pos) as int) =~= s@.skip(e as int));
            let l = class_end(s, e, CharClass::IdentNum);
            if l == e {
                return None;
            }
            push_range(out, s, pos, p);
            out.append("if (");
            push_range(out, s, e, l);
            out.append(") {");
            assert(t.take((p - pos) as int) =~= s@.subrange(pos as int, p as int));
            assert(t.subrange((e - pos) as int, (e - pos) + (l - e)) =~= s@.subrange(e as int, l as int));
            Some(l)
        },
        None => None,
    }
}

fn else_endif_step_pos(
    s: &Vec<char>,
    pos: usize,
    kw_else: &Vec<char>,
    kw_endif: &Vec<char>,
    out: &mut String,
) -> (r: Option<usize>)
    requires
        pos <= s.len(),
        kw_else@ == "#else"@,
        kw_endif@ == "#endif"@,
    ensures
        match else_endif_step(s@.skip(pos as int)) {
            Some((n, o)) => r == Some((pos + n) as usize) && pos + n <= s.len() && final(out)@
                == old(out)@ + o,
            None => r is None && final(out)@ == old(out)@,
        },
{
    let ghost t = s@.skip(pos as int);
    match scan_else_endif(s, pos, kw_else, kw_endif) {
        Some((p, e, b)) => {
            push_range(out, s, pos, p);
            if b {
                out.append("} else {");
            } else {
                out.append("}");
            }
            assert(t.take((p - pos) as int) =~= s@.subrange(pos as int, p as int));
            Some(e)
        },
        None => None,
    }
}

/// Reads up to the end of the first `#ifdef NAME` and writes what it read
/// with it as `if (NAME) {`.
fn replace_ifdefs(i: &str) -> (r: ParserResult<String>)
    ensures
        match ifdef_step(i@) {
            Some((n, o)) => parsed(r, i@.skip(n as int), o),
            None => r is Err,
        },
{
    let s = to_chars(i);
    let kw = to_chars("#ifdef");
    assert(s@.skip(0) =~= s@);
    let mut out = String::new();
    match ifdef_step_pos(&s, 0, &kw, &mut out) {
        Some(e) => Ok((suffix(i, e), out)),
        None => Err(ParseError::Mismatch),
    }
}

/// Reads up to the end of the first `#else` or `#endif` and writes what it
/// read with it as `} else {` or `}`.
fn replace_defelse_defend(i: &str) -> (r: ParserResult<String>)
    ensures
        match else_endif_step(i@) {
            Some((n, o)) => parsed(r, i@.skip(n as int), o),
            None => r is Err,
        },
{
    let s = to_chars(i);
    let kw_else = to_chars("#else");
    let kw_endif = to_chars("#endif");
    assert(s@.skip(0) =~= s@);
    let mut out = String::new();
    match else_endif_step_pos(&s, 0, &kw_else, &kw_endif, &mut out) {
        Some(e) => Ok((suffix(i, e), out)),
        None => Err(ParseError::Mismatch),
    }
}

#[verifier::rlimit(40)]
fn ifdefs_pass_string(i: &str) -> (r: String)
    ensures
        r@ == ifdefs_pass(i@),
{
    let s = to_chars(i);
    let kw = to_chars("#ifdef");
    let mut out = String::new();
    let mut k: usize = 0;
    assert(s@.skip(0) =~= s@);
    loop
        invariant
            k <= s.len(),
            s@ == i@,
            kw@ == "#ifdef"@,
            ifdefs_pass(i@) == out@ + ifdefs_pass(s@.skip(k as int)),
        ensures
            k <= s.len(),
            ifdefs_pass(i@) == out@ + s@.skip(k as int),
        decreases s.len() - k,
    {
        let ghost t = s@.skip(k as int);
        match ifdef_step_pos(&s, k, &kw, &mut out) {
            Some(e) => {
                proof {
                    let ghost n = (e - k) as nat;
                    let ghost o = (ifdef_step(t)->0).1;
                    assert(n > 0);
                    assert(ifdefs_pass(t) == o + ifdefs_pass(t.skip(n as int)));
                    assert(t.skip(n as int) =~= s@.skip(e as int));
                }
                k = e;
            },
            None => {
                assert(ifdefs_pass(t) == t);
                break;
            },
        }
    }
    push_range(&mut out, &s, k, s.len());
    assert(s@.subrange(k as int, s.len() as int) =~= s@.skip(k as int));
    out
}

#[verifier::rlimit(40)]
fn else_endif_pass_string(i: &str) -> (r: String)
    ensures
        r@ == else_endif_pass(i@),
{
    let s = to_chars(i);
    let kw_else = to_chars("#else");
    let kw_endif = to_chars("#endif");
    let mut out = String::new();
    let mut k: usize = 0;
    assert(s@.skip(0) =~= s@);
    loop
        invariant
            k <= s.len(),
            s@ == i@,
            kw_else@ == "#else"@,
            kw_endif@ == "#endif"@,
            else_endif_pass(i@) == out@ + else_endif_pass(s@.skip(k as int)),
        ensures
            k <= s.len(),
            else_endif_pass(i@) == out@ + s@.skip(k as int),
        decreases s.len() - k,
    {
        let ghost t = s@.skip(k as int);
        match else_endif_step_pos(&s, k, &kw_else, &kw_endif, &mut out) {
            Some(e) => {
                proof {
                    lemma_def_literals();
                    let ghost n = (e - k) as nat;
                    let ghost o = (else_endif_step(t)->0).1;
                    assert(n > 0);
                    assert(else_endif_pass(t) == o + else_endif_pass(t.skip(n as int)));
                    assert(t.skip(n as int) =~= s@.skip(e as int));
                }
                k = e;
            },
            None => {
                assert(else_endif_pass(t) == t);
                break;
            },
        }
    }
    push_range(&mut out, &s, k, s.len());
    assert(s@.subrange(k as int, s.len() as int) =~= s@.skip(k as int));
    out
}

/// Writes each `#ifdef NAME` as `if (NAME) {` (up to the first that is not
/// followed by a name), then each `#else` as `} else {` and each `#endif` as
/// `}`; it reads the whole input.
pub fn ifdefs_parser(i: &str) -> (r: ParserResult<String>)
    ensures
        parsed(r, Seq::empty(), else_endif_pass(ifdefs_pass(i@))),
{
    let replaced_ifdefs = ifdefs_pass_string(i);
    let buf = else_endif_pass_string(replaced_ifdefs.as_str());
    proof {
        reveal_strlit("");
        assert(""@ =~= Seq::<char>::empty());
    }
    Ok(("", buf))
}

} // verus!
