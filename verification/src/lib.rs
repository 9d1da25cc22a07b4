//! A GLSL to WGSL converter: an AST printer that writes WGSL text, and text
//! passes that adjust the printed program.

pub mod text;

pub mod syntax;
pub mod transpiler;
pub mod nom_helpers;
pub mod replace_inouts;
pub mod replace_unis;
pub mod replace_main;
pub mod replace_mod;
pub mod replace_texel_fetch;
pub mod let2var;
pub mod insert_new_arg_vars;
pub mod replace_defs;
pub mod replace_defines;
pub mod parse_func_defines;
pub mod text_laws;

use vstd::prelude::*;
use crate::insert_new_arg_vars::{
    add_var_to_reassigned_args, reassigned_ok, reassigned_ok_exec, replaced_reassigned,
};
use crate::let2var::{let2var_parser, replaced_lets};
use crate::replace_inouts::{
    inouts_ok, inouts_ok_exec, remove_occurrences, replace_inouts, replaced_inouts,
    search_and_replace_void,
};
use crate::replace_main::{replace_main_line, replaced_main};
use crate::replace_mod::{mods_ok, mods_ok_exec, replace_all_mods, replaced_mods};
use crate::replace_texel_fetch::{
    replace_all_texture_and_texel_fetch, replaced_textures, textures_ok, textures_ok_exec,
};
use crate::replace_unis::{prefix_uniforms, uniform_vars_parser};
use crate::nom_helpers::{parsed, ParserResult};
use crate::parse_func_defines::{func_definition_parser, func_defined};
use crate::replace_defines::{defined, definition_parser};
use crate::replace_defs::{defs_parser, replaced_defs};
use crate::text::{
    find_first, find_from, first_in, first_in_from, nat_digits, push_char, push_range, slice_vec,
    to_chars, write_nat,
};

verus! {

/// The printed program after the `let` and uniform passes.
pub open spec fn post_unis(s: Seq<char>) -> Seq<char> {
    prefix_uniforms(replaced_lets(s))
}

/// The printed program after the `mainImage` pass.
pub open spec fn post_main(s: Seq<char>) -> Seq<char> {
    match replaced_main(post_unis(s)) {
        Some(t) => t,
        None => post_unis(s),
    }
}

/// The printed program after the passes up to and with the one that takes
/// out `-> ()`.
pub open spec fn post_void(s: Seq<char>) -> Seq<char> {
    remove_occurrences(replaced_inouts(post_main(s)), "-> ()"@)
}

/// The printed program after the passes up to and with the one that adds
/// variables for reassigned parameters.
pub open spec fn post_vars(s: Seq<char>) -> Seq<char> {
    replaced_reassigned(replaced_textures(post_void(s)))
}

/// The printed program after all the passes, `mod` rewritten twice so that
/// a `mod` inside a `mod` is rewritten too.
pub open spec fn postprocessed(s: Seq<char>) -> Seq<char> {
    replaced_mods(replaced_mods(post_vars(s)))
}

/// None of the passes fails on the program: each pass meets its own
/// condition on the text that the passes before it made.
pub open spec fn postprocess_ok(s: Seq<char>) -> bool {
    &&& inouts_ok(post_main(s))
    &&& textures_ok(post_void(s))
    &&& reassigned_ok(replaced_textures(post_void(s)))
    &&& mods_ok(post_vars(s))
    &&& mods_ok(replaced_mods(post_vars(s)))
}

/// Runs the text passes on a printed WGSL program, in order: `let` to `var`
/// where the variable is assigned again, `uni.` before uniform variables,
/// the `mainImage` line, `inout` parameters as pointers, `-> ()` taken out,
/// texture reads, variables for reassigned parameters, and `mod` to `%`
/// twice.
pub fn postprocessing(i: &str) -> (r: String)
    requires
        postprocess_ok(i@),
    ensures
        r@ == postprocessed(i@),
{
    let mut buf: String;
    if let Ok((_, lets)) = let2var_parser(i) {
        buf = lets;
    } else {
        return "Encountered error while attempting to change some \"let\" keywords to \"var\" ".to_string();
    }
    if let Ok((_, unis)) = uniform_vars_parser(buf.as_str()) {
        buf = unis;
    } else {
        return "Encountered error while attempting to add the root \"uni\" to the uniform variables.".to_string();
    }
    if let Ok((_, upda)) = replace_main_line(buf.as_str()) {
        buf = upda;
    } else {
        return "Encountered error while attempting to replace the mainImage(..) function.".to_string();
    }
    if let Ok((_, inout)) = replace_inouts(buf.as_str()) {
        buf = inout;
    } else {
        return "Encountered error while attempting to parse the inout storage qualifier and changing the corresponding variable to a pointer.".to_string();
    }
    if let Ok((_, voids)) = search_and_replace_void(buf.as_str()) {
        buf = voids;
    } else {
        return "Encountered error while attempting to erase all void symbols: \"-> ()\"".to_string();
    }
    if let Ok((_, tex)) = replace_all_texture_and_texel_fetch(buf.as_str()) {
        buf = tex;
    } else {
        return "Encountered error while attempting to replace all \"texture(..)\" and \"texelFetch(..)\" functions".to_string();
    }
    if let Ok((_, tex)) = add_var_to_reassigned_args(buf.as_str()) {
        buf = tex;
    } else {
        return "Encountered error while attempting to insert var to args that are reassigned".to_string();
    }
    if let Ok((_, rmod)) = replace_all_mods(buf.as_str()) {
        buf = rmod;
    } else {
        return "Encountered error while attempting to replace mod(a,b) with a % b".to_string();
    }
    if let Ok((_, rmod)) = replace_all_mods(buf.as_str()) {
        buf = rmod;
    } else {
        return "Encountered error while attempting to replace mod(a,b) with a % b".to_string();
    }
    buf
}


/// A line with its first `//` and what follows it cut off.
pub open spec fn cut_comment(line: Seq<char>) -> Seq<char> {
    match find_first(line, "//"@) {
        Some(p) => line.take(p as int),
        None => line,
    }
}

/// The lines of `s` (split at each `\n`, a `\r` before it dropped), each cut
/// at its first `//` and ended with `\n`.
pub open spec fn uncommented_lines(s: Seq<char>) -> Seq<char>
    decreases s.len(),
{
    if s.len() == 0 {
        s
    } else {
        match first_in(s, seq!['\n']) {
            Some(n) => {
                let line = if n > 0 && s[n - 1] == '\r' {
                    s.take(n - 1)
                } else {
                    s.take(n as int)
                };
                cut_comment(line) + seq!['\n'] + if n + 1 <= s.len() {
                    uncommented_lines(s.skip(n + 1int))
                } else {
                    Seq::empty()
                }
            },
            None => cut_comment(s) + seq!['\n'],
        }
    }
}

/// The text that `preprocessing` gives: the flag lines replaced, the
/// comments cut, the function-like definitions applied, then the others.
pub open spec fn preprocessed(s: Seq<char>) -> Seq<char> {
    defined(func_defined(uncommented_lines(replaced_defs(s))))
}

fn push_cut_line(out: &mut String, s: &Vec<char>, from: usize, to: usize, slashes: &Vec<char>)
    requires
        from <= to <= s.len(),
        slashes@ == "//"@,
    ensures
        final(out)@ == old(out)@ + cut_comment(s@.subrange(from as int, to as int)),
{
    let line = slice_vec(s, from, to);
    assert(line@.skip(0) =~= line@);
    match find_from(&line, 0, slashes) {
        Some(p) => {
            push_range(out, &line, 0, p);
            assert(line@.subrange(0, p as int) =~= line@.take(p as int));
        },
        None => {
            push_range(out, &line, 0, line.len());
            assert(line@.subrange(0, line.len() as int) =~= line@);
        },
    }
}

/// Cuts each line of the text at its first `//` and ends each with `\n`.
fn remove_comments(i: &str) -> (r: String)
    ensures
        r@ == uncommented_lines(i@),
{
    let s = to_chars(i);
    let slashes = to_chars("//");
    let mut nl: Vec<char> = Vec::new();
    nl.push('\n');
    assert(nl@ =~= seq!['\n']);
    let mut out = String::new();
    let mut k: usize = 0;
    assert(s@.skip(0) =~= s@);
    while k < s.len()
        invariant
            k <= s.len(),
            s@ == i@,
            slashes@ == "//"@,
            nl@ == seq!['\n'],
            uncommented_lines(i@) == out@ + uncommented_lines(s@.skip(k as int)),
        decreases s.len() - k,
    {
        let ghost t = s@.skip(k as int);
        match first_in_from(&s, k, &nl) {
            Some(n) => {
                let end = if n > k && s[n - 1] == '\r' {
                    n - 1
                } else {
                    n
                };
                push_cut_line(&mut out, &s, k, end, &slashes);
                push_char(&mut out, '\n');
                proof {
                    let ghost m = (n - k) as nat;
                    if n > k && s@[n - 1] == '\r' {
                        assert(t[m - 1] == s@[n - 1]);
                        assert(t.take(m - 1) =~= s@.subrange(k as int, end as int));
                    } else {
                        assert(m > 0 ==> t[m - 1] == s@[n - 1]);
                        assert(t.take(m as int) =~= s@.subrange(k as int, end as int));
                    }
                    assert(t.skip(m + 1int) =~= s@.skip(n + 1));
                }
                k = n + 1;
            },
            None => {
                push_cut_line(&mut out, &s, k, s.len(), &slashes);
                push_char(&mut out, '\n');
                assert(t =~= s@.subrange(k as int, s.len() as int));
                assert(s@.skip(s.len() as int).len() == 0);
                k = s.len();
            },
        }
    }
    assert(s@.skip(k as int).len() == 0);
    assert(out@ + Seq::<char>::empty() =~= out@);
    out
}

/// Prepares a GLSL program for parsing: replaces the flag lines
/// `#define NAME` and `// #define NAME` by declarations, cuts the `//`
/// comments, applies the function-like definitions, then the others.
pub fn preprocessing(i: &str) -> (r: ParserResult<String>)
    ensures
        parsed(r, Seq::empty(), preprocessed(i@)),
{
    let mut buf = String::new();
    if let Ok((_rest, replaced_defs)) = defs_parser(i) {
        buf = replaced_defs;
    }
    let removed_comments2 = remove_comments(buf.as_str());
    if let Ok((_rest, replaced_defines_func)) = func_definition_parser(removed_comments2.as_str()) {
        if let Ok((_rest2, replaced_defines)) = definition_parser(replaced_defines_func.as_str()) {
            proof {
                reveal_strlit("");
                assert(""@ =~= Seq::<char>::empty());
            }
            return Ok(("", replaced_defines));
        }
    }
    Err(crate::nom_helpers::ParseError::Mismatch)
}


/// The first line of `s` (up to `\n`, a `\r` before it dropped) and where
/// the next one starts; `None` where `s` is empty.
pub open spec fn first_line(s: Seq<char>) -> Option<(Seq<char>, nat)> {
    if s.len() == 0 {
        None
    } else {
        match first_in(s, seq!['\n']) {
            Some(n) => Some(
                (
                    if n > 0 && s[n - 1] == '\r' {
                        s.take(n - 1)
                    } else {
                        s.take(n as int)
                    },
                    n + 1,
                ),
            ),
            None => Some((s, s.len())),
        }
    }
}

/// The part of the unparsed text that a syntax error shows: its first two
/// lines, each after a line feed, or its only line.
pub open spec fn buggy_line(fragment: Seq<char>) -> Seq<char> {
    match first_line(fragment) {
        Some((l1, n)) => match first_line(fragment.skip(n as int)) {
            Some((l2, m)) => seq!['\n'] + l1 + seq!['\n'] + l2,
            None => l1,
        },
        None => "Error within error: there is no line to be parsed."@,
    }
}

/// `s` with a line break and a tab put before each space that comes after
/// more than 50 characters since the start or the last break; `count`
/// characters come before `s`.
pub open spec fn wrapped(s: Seq<char>, count: nat) -> Seq<char>
    decreases s.len(),
{
    if s.len() == 0 {
        s
    } else if count + 1 > 50 && s[0] == ' ' {
        "\n\t"@ + seq![s[0]] + wrapped(s.skip(1), 0)
    } else {
        seq![s[0]] + wrapped(s.skip(1), count + 1)
    }
}

/// The message for a syntax error at `line` and `column`, where `fragment`
/// is the text that could not be parsed.
pub open spec fn syntax_error_text(line: nat, column: nat, fragment: Seq<char>) -> Seq<char> {
    "There seems to be a syntax error in the input GLSL code: \nline: "@ + nat_digits(line)
        + ", column: "@ + nat_digits(column) + ", \nbuggy line:"@ + wrapped(buggy_line(fragment), 0)
}

fn line_end_of(s: &Vec<char>, from: usize, nl: &Vec<char>) -> (r: Option<(usize, usize)>)
    requires
        from <= s.len(),
        nl@ == seq!['\n'],
    ensures
        match first_line(s@.skip(from as int)) {
            Some((l, n)) => r matches Some((e, next)) && from <= e <= s.len() && l == s@.subrange(
                from as int,
                e as int,
            ) && next == from + n && next <= s.len(),
            None => r is None,
        },
{
    let ghost t = s@.skip(from as int);
    if from == s.len() {
        return None;
    }
    match first_in_from(s, from, nl) {
        Some(n) => {
            if n > from && s[n - 1] == '\r' {
                assert(t[(n - from) - 1] == s@[n - 1]);
                assert(t.take((n - from) - 1) =~= s@.subrange(from as int, n - 1));
                Some((n - 1, n + 1))
            } else {
                assert((n - from) > 0 ==> t[(n - from) - 1] == s@[n - 1]);
                assert(t.take((n - from) as int) =~= s@.subrange(from as int, n as int));
                Some((n, n + 1))
            }
        },
        None => {
            assert(t =~= s@.subrange(from as int, s.len() as int));
            Some((s.len(), s.len()))
        },
    }
}

/// Formats the message for a syntax error at `line` and `column`, showing
/// the first lines of the text that could not be parsed.
pub fn syntax_error_message(line: u32, column: usize, fragment: &str) -> (r: String)
    ensures
        r@ == syntax_error_text(line as nat, column as nat, fragment@),
{
    let f = to_chars(fragment);
    let mut nl: Vec<char> = Vec::new();
    nl.push('\n');
    assert(nl@ =~= seq!['\n']);
    assert(f@.skip(0) =~= f@);
    let mut buggy: Vec<char> = Vec::new();
    match line_end_of(&f, 0, &nl) {
        Some((e1, n1)) => {
            let l1 = slice_vec(&f, 0, e1);
            assert(f@.skip(n1 as int) =~= f@.skip(0).skip(n1 as int));
            let second = line_end_of(&f, n1, &nl);
            match second {
                Some((e2, _)) => {
                    buggy.push('\n');
                    let mut k: usize = 0;
                    while k < l1.len()
                        invariant
                            k <= l1.len(),
                            buggy@ == seq!['\n'] + l1@.take(k as int),
                        decreases l1.len() - k,
                    {
                        buggy.push(l1[k]);
                        assert(l1@.take(k + 1) =~= l1@.take(k as int).push(l1@[k as int]));
                        k = k + 1;
                    }
                    buggy.push('\n');
                    let l2 = slice_vec(&f, n1, e2);
                    let ghost b0 = buggy@;
                    let mut k: usize = 0;
                    while k < l2.len()
                        invariant
                            k <= l2.len(),
                            buggy@ == b0 + l2@.take(k as int),
                        decreases l2.len() - k,
                    {
                        buggy.push(l2[k]);
                        assert(l2@.take(k + 1) =~= l2@.take(k as int).push(l2@[k as int]));
                        k = k + 1;
                    }
                    assert(l1@.take(l1.len() as int) =~= l1@);
                    assert(l2@.take(l2.len() as int) =~= l2@);
                    assert(buggy@ =~= seq!['\n'] + l1@ + seq!['\n'] + l2@);
                },
                None => {
                    buggy = l1;
                },
            }
        },
        None => {
            buggy = to_chars("Error within error: there is no line to be parsed.");
        },
    }
    assert(buggy@ == buggy_line(fragment@));
    let mut intro = String::new();
    intro.append("There seems to be a syntax error in the input GLSL code: \nline: ");
    write_nat(&mut intro, line as u64);
    intro.append(", column: ");
    write_nat(&mut intro, column as u64);
    intro.append(", \nbuggy line:");
    let mut count: usize = 0;
    let mut k: usize = 0;
    let ghost i0 = intro@;
    assert(buggy@.skip(0) =~= buggy@);
    while k < buggy.len()
        invariant
            k <= buggy.len(),
            count <= k,
            i0 + wrapped(buggy@, 0) == intro@ + wrapped(buggy@.skip(k as int), count as nat),
        decreases buggy.len() - k,
    {
        let c = buggy[k];
        let ghost t = buggy@.skip(k as int);
        assert(t[0] == c);
        assert(t.skip(1) =~= buggy@.skip(k + 1));
        count = count + 1;
        if count > 50 && c == ' ' {
            intro.append("\n\t");
            count = 0;
        }
        push_char(&mut intro, c);
        k = k + 1;
    }
    assert(buggy@.skip(k as int).len() == 0);
    assert(intro@ + Seq::<char>::empty() =~= intro@);
    intro
}


/// Runs the text passes like `postprocessing`, but first tests, before each
/// pass that has a condition, that the text meets it; gives `None` where a
/// pass would fail.
pub fn postprocessing_checked(i: &str) -> (r: Option<String>)
    ensures
        postprocess_ok(i@) ==> (r matches Some(x) && x@ == postprocessed(i@)),
        !postprocess_ok(i@) ==> r is None,
{
    let mut buf: String;
    match let2var_parser(i) {
        Ok((_, lets)) => buf = lets,
        Err(_) => return None,
    }
    match uniform_vars_parser(buf.as_str()) {
        Ok((_, unis)) => buf = unis,
        Err(_) => return None,
    }
    match replace_main_line(buf.as_str()) {
        Ok((_, upda)) => buf = upda,
        Err(_) => return None,
    }
    if !inouts_ok_exec(buf.as_str()) {
        return None;
    }
    match replace_inouts(buf.as_str()) {
        Ok((_, inout)) => buf = inout,
        Err(_) => return None,
    }
    match search_and_replace_void(buf.as_str()) {
        Ok((_, voids)) => buf = voids,
        Err(_) => return None,
    }
    if !textures_ok_exec(buf.as_str()) {
        return None;
    }
    match replace_all_texture_and_texel_fetch(buf.as_str()) {
        Ok((_, tex)) => buf = tex,
        Err(_) => return None,
    }
    if !reassigned_ok_exec(buf.as_str()) {
        return None;
    }
    match add_var_to_reassigned_args(buf.as_str()) {
        Ok((_, tex)) => buf = tex,
        Err(_) => return None,
    }
    if !mods_ok_exec(buf.as_str()) {
        return None;
    }
    match replace_all_mods(buf.as_str()) {
        Ok((_, rmod)) => buf = rmod,
        Err(_) => return None,
    }
    if !mods_ok_exec(buf.as_str()) {
        return None;
    }
    match replace_all_mods(buf.as_str()) {
        Ok((_, rmod)) => buf = rmod,
        Err(_) => return None,
    }
    Some(buf)
}

} // verus!
