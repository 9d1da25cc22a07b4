//! Replaces the GLSL texture reads `texelFetch(..)`, `textureLod(..)` and
//! `texture(..)` by their WGSL counterparts.

use vstd::prelude::*;
use crate::nom_helpers::{
    call_args, call_args_at, class_end, lead_len, parsed, views, CharClass, ParseError,
    ParserResult,
};
use crate::text::{find_tag, first_tag, lemma_first_tag_fits, push_range, suffix, to_chars};

verus! {

/// The texture functions, in the order in which they are tried.
pub open spec fn texture_names() -> Seq<Seq<char>> {
    seq!["textureLod"@, "texture"@, "texelFetch"@]
}

/// The blank read before a texture function's name: one line feed, one tab,
/// or a run of spaces and tabs.
pub open spec fn blank_before(s: Seq<char>) -> nat {
    if s.len() > 0 && (s[0] == '\n' || s[0] == '\t') {
        1
    } else {
        lead_len(s, CharClass::Blank)
    }
}

/// A texture call at the start of `s`: the length of the blank before it,
/// the function's name, where the call ends and its arguments.
pub open spec fn texture_call(s: Seq<char>) -> Option<(nat, Seq<char>, nat, Seq<Seq<char>>)> {
    let w = blank_before(s);
    match first_tag(s.skip(w as int), texture_names()) {
        Some(name) => match call_args(s.skip(w + name.len() as int)) {
            Some((n, args)) => Some((w, name, w + name.len() + n, args)),
            None => None,
        },
        None => None,
    }
}

/// The first texture call of `s`: where its blank starts, the blank's
/// length, the function's name, where the call ends and its arguments.
pub open spec fn find_texture(s: Seq<char>) -> Option<(nat, nat, Seq<char>, nat, Seq<Seq<char>>)>
    decreases s.len(),
{
    match texture_call(s) {
        Some((w, name, n, args)) => Some((0nat, w, name, n, args)),
        None => if s.len() == 0 {
            None
        } else {
            match find_texture(s.skip(1)) {
                Some((q, w, name, n, args)) => Some((q + 1, w, name, n + 1, args)),
                None => None,
            }
        },
    }
}

/// How many arguments the rewrite of a texture function reads.
pub open spec fn texture_arity(name: Seq<char>) -> nat {
    if name == "textureLod"@ {
        3
    } else {
        2
    }
}

/// The WGSL call that replaces a texture call.
pub open spec fn texture_text(name: Seq<char>, args: Seq<Seq<char>>) -> Seq<char> {
    if name == "texelFetch"@ {
        "textureLoad("@ + "BUFFER_"@ + args[0] + ", "@ + "vec2<i32>("@ + args[1] + "))"@
    } else if name == "textureLod"@ {
        "textureSampleLevel("@ + "BUFFER_"@ + args[0] + ", buffer_sampler, "@ + args[1] + ", "@
            + "f32("@ + args[2] + "))"@
    } else {
        "sample_texture("@ + "BUFFER_"@ + args[0] + ", "@ + args[1] + ")"@
    }
}

/// Every texture call that `replace_all_texture_and_texel_fetch` rewrites
/// has the arguments that its rewrite reads.
pub open spec fn textures_ok(s: Seq<char>) -> bool
    decreases s.len(),
{
    match find_texture(s) {
        Some((q, w, name, n, args)) => args.len() >= texture_arity(name) && (0 < n <= s.len()
            ==> textures_ok(s.skip(n as int))),
        None => true,
    }
}

/// `s` with its texture calls rewritten from left to right.
pub open spec fn replaced_textures(s: Seq<char>) -> Seq<char>
    decreases s.len(),
{
    match find_texture(s) {
        Some((q, w, name, n, args)) => if 0 < n <= s.len() {
            s.take(q + w as int) + texture_text(name, args) + replaced_textures(s.skip(n as int))
        } else {
            s
        },
        None => s,
    }
}

proof fn lemma_texture_names()
    ensures
        texture_names()[0] == "textureLod"@,
        texture_names()[1] == "texture"@,
        texture_names()[2] == "texelFetch"@,
        "textureLod"@ != "texelFetch"@,
        "texture"@ != "texelFetch"@,
        "texture"@ != "textureLod"@,
{
    reveal_strlit("textureLod");
    reveal_strlit("texture");
    reveal_strlit("texelFetch");
    assert("textureLod"@[3] != "texelFetch"@[3]);
}

fn texture_tags() -> (r: Vec<Vec<char>>)
    ensures
        r@.map_values(|t: Vec<char>| t@) == texture_names(),
{
    let mut r: Vec<Vec<char>> = Vec::new();
    r.push(to_chars("textureLod"));
    r.push(to_chars("texture"));
    r.push(to_chars("texelFetch"));
    assert(r@.map_values(|t: Vec<char>| t@) =~= texture_names());
    r
}

fn texture_call_at(s: &Vec<char>, pos: usize, tags: &Vec<Vec<char>>) -> (r: Option<
    (usize, usize, usize, Vec<String>),
>)
    requires
        pos <= s.len(),
        tags@.map_values(|t: Vec<char>| t@) == texture_names(),
    ensures
        match texture_call(s@.skip(pos as int)) {
            Some((w, name, n, args)) => r matches Some((b, k, e, out)) && b == pos + w && k < 3
                && name == texture_names()[k as int] && e == pos + n && b <= e <= s.len()
                && views(out@) == args,
            None => r is None,
        },
{
    let ghost t = s@.skip(pos as int);
    let b = if pos < s.len() && (s[pos] == '\n' || s[pos] == '\t') {
        pos + 1
    } else {
        class_end(s, pos, CharClass::Blank)
    };
    assert(b - pos == blank_before(t));
    assert(t.skip(b - pos) =~= s@.skip(b as int));
    match find_tag(s, b, tags) {
        Some(k) => {
            proof {
                lemma_first_tag_fits(s@.skip(b as int), texture_names());
            }
            let m = tags[k].len();
            assert(t.skip(b - pos + m) =~= s@.skip(b + m));
            match call_args_at(s, b + m) {
                Some((e, out)) => {
                    assert(views(out@) =~= (call_args(s@.skip(b + m))->0).1);
                    Some((b, k, e, out))
                },
                None => None,
            }
        },
        None => None,
    }
}


/// `r` with its positions moved `d` characters on.
pub open spec fn shift_call(
    r: Option<(nat, nat, Seq<char>, nat, Seq<Seq<char>>)>,
    d: nat,
) -> Option<(nat, nat, Seq<char>, nat, Seq<Seq<char>>)> {
    match r {
        Some((q, w, name, n, args)) => Some((q + d, w, name, n + d, args)),
        None => None,
    }
}

fn scan_texture(s: &Vec<char>, from: usize, tags: &Vec<Vec<char>>) -> (r: Option<
    (usize, usize, usize, usize, Vec<String>),
>)
    requires
        from <= s.len(),
        tags@.map_values(|t: Vec<char>| t@) == texture_names(),
    ensures
        match find_texture(s@.skip(from as int)) {
            Some((q, w, name, n, args)) => r matches Some((q2, b, k, e, out)) && q2 == from + q && b
                == q2 + w && k < 3 && name == texture_names()[k as int] && e == from + n && b <= e
                <= s.len() && views(out@) == args,
            None => r is None,
        },
{
    let mut pos = from;
    assert(s@.skip(from as int) =~= s@.skip(from as int));
    loop
        invariant
            from <= pos <= s.len(),
            tags@.map_values(|t: Vec<char>| t@) == texture_names(),
            find_texture(s@.skip(from as int)) == shift_call(
                find_texture(s@.skip(pos as int)),
                (pos - from) as nat,
            ),
        decreases s.len() - pos,
    {
        match texture_call_at(s, pos, tags) {
            Some((b, k, e, out)) => {
                return Some((pos, b, k, e, out));
            },
            None => {},
        }
        if pos == s.len() {
            return None;
        }
        assert(s@.skip(pos as int).skip(1) =~= s@.skip(pos + 1));
        pos = pos + 1;
    }
}

fn write_texture(out: &mut String, k: usize, args: &Vec<String>)
    requires
        k < 3,
        args.len() >= texture_arity(texture_names()[k as int]),
    ensures
        final(out)@ == old(out)@ + texture_text(texture_names()[k as int], views(args@)),
{
    proof {
        lemma_texture_names();
    }
    if k == 2 {
        out.append("textureLoad(");
        out.append("BUFFER_");
        out.append(args[0].as_str());
        out.append(", ");
        out.append("vec2<i32>(");
        out.append(args[1].as_str());
        out.append("))");
    } else if k == 0 {
        out.append("textureSampleLevel(");
        out.append("BUFFER_");
        out.append(args[0].as_str());
        out.append(", buffer_sampler, ");
        out.append(args[1].as_str());
        out.append(", ");
        out.append("f32(");
        out.append(args[2].as_str());
        out.append("))");
    } else {
        out.append("sample_texture(");
        out.append("BUFFER_");
        out.append(args[0].as_str());
        out.append(", ");
        out.append(args[1].as_str());
        out.append(")");
    }
}

/// Reads up to the end of the first texture call (`texelFetch`,
/// `textureLod` or `texture` with its argument list) and writes what it read
/// with the call rewritten in WGSL: `textureLoad`, `textureSampleLevel` or
/// `sample_texture`, the texture named `BUFFER_` and its name.
pub fn check_one_texture(i: &str) -> (r: ParserResult<String>)
    requires
        find_texture(i@) matches Some((q, w, name, n, args)) ==> args.len() >= texture_arity(name),
    ensures
        match find_texture(i@) {
            Some((q, w, name, n, args)) => parsed(
                r,
                i@.skip(n as int),
                i@.take(q + w as int) + texture_text(name, args),
            ),
            None => r is Err,
        },
{
    let s = to_chars(i);
    let tags = texture_tags();
    assert(s@.skip(0) =~= s@);
    match scan_texture(&s, 0, &tags) {
        Some((q, b, k, e, args)) => {
            let mut out = String::new();
            push_range(&mut out, &s, 0, b);
            write_texture(&mut out, k, &args);
            assert(s@.subrange(0, b as int) =~= s@.take(b as int));
            Ok((suffix(i, e), out))
        },
        None => Err(ParseError::Mismatch),
    }
}

/// Rewrites the texture calls of the text from left to right and copies the
/// rest; it reads the whole input.
#[verifier::rlimit(40)]
pub fn replace_all_texture_and_texel_fetch(i: &str) -> (r: ParserResult<String>)
    requires
        textures_ok(i@),
    ensures
        parsed(r, Seq::empty(), replaced_textures(i@)),
{
    let s = to_chars(i);
    let tags = texture_tags();
    let mut out = String::new();
    let mut k: usize = 0;
    assert(s@.skip(0) =~= s@);
    loop
        invariant
            k <= s.len(),
            s@ == i@,
            tags@.map_values(|t: Vec<char>| t@) == texture_names(),
            textures_ok(s@.skip(k as int)),
            replaced_textures(i@) == out@ + replaced_textures(s@.skip(k as int)),
        ensures
            k <= s.len(),
            replaced_textures(i@) == out@ + s@.skip(k as int),
        decreases s.len() - k,
    {
        let ghost t = s@.skip(k as int);
        match scan_texture(&s, k, &tags) {
            Some((q, b, j, e, args)) => {
                proof {
                    assert(replaced_textures(t) == t.take(b - k) + texture_text(
                        texture_names()[j as int],
                        views(args@),
                    ) + replaced_textures(t.skip(e - k)));
                }
                push_range(&mut out, &s, k, b);
                write_texture(&mut out, j, &args);
                proof {
                    assert(t.take(b - k) =~= s@.subrange(k as int, b as int));
                    assert(t.skip(e - k) =~= s@.skip(e as int));
                }
                k = e;
            },
            None => {
                assert(replaced_textures(t) == t);
                break;
            },
        }
    }
    push_range(&mut out, &s, k, s.len());
    assert(s@.subrange(k as int, s.len() as int) =~= s@.skip(k as int));
    proof {
        reveal_strlit("");
        assert(""@ =~= Seq::<char>::empty());
    }
    Ok(("", out))
}


/// Whether every texture call that `replace_all_texture_and_texel_fetch`
/// rewrites has the arguments that its rewrite reads.
pub fn textures_ok_exec(i: &str) -> (b: bool)
    ensures
        b == textures_ok(i@),
{
    proof {
        lemma_texture_names();
    }
    let s = to_chars(i);
    let tags = texture_tags();
    let mut k: usize = 0;
    assert(s@.skip(0) =~= s@);
    loop
        invariant
            k <= s.len(),
            s@ == i@,
            tags@.map_values(|t: Vec<char>| t@) == texture_names(),
            textures_ok(i@) == textures_ok(s@.skip(k as int)),
        decreases s.len() - k,
    {
        let ghost t = s@.skip(k as int);
        match scan_texture(&s, k, &tags) {
            Some((_q, _b, j, e, args)) => {
                proof {
                    lemma_texture_names();
                }
                let needed: usize = if j == 0 {
                    3
                } else {
                    2
                };
                assert(needed == texture_arity(texture_names()[j as int]));
                if args.len() < needed {
                    return false;
                }
                assert(t.skip((e - k) as int) =~= s@.skip(e as int));
                k = e;
            },
            None => {
                return true;
            },
        }
    }
}

} // verus!
