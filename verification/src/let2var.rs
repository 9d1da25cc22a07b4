//! Turns `let` into `var` where the declared variable is assigned again
//! further on, as WGSL asks. Scopes are not told apart: two variables with
//! the same name count as one.

use vstd::prelude::*;
use crate::nom_helpers::{
    class_end, ident_len, identifier_at, identifier_end, in_class, lead_len, lemma_lead_len, parsed,
    CharClass, ParseError, ParserResult,
};
use crate::text::{
    find_first, find_from, first_in, first_in_from, push_range, starts_with, starts_with_at,
    suffix, to_chars,
};

verus! {

/// `: type = ` at the start of `s`: how many characters it takes and the
/// text it gives, `: ` and the type, a space and ` = `.
pub open spec fn read_type_at(s: Seq<char>) -> Option<(nat, Seq<char>)> {
    if starts_with(s, ": "@) {
        match first_in(s.skip(2), seq![' ']) {
            Some(n) => if starts_with(s.skip(2 + n as int), " = "@) {
                Some((2 + n + 3, ": "@ + s.subrange(2, 2 + n as int) + " "@ + " = "@))
            } else {
                None
            },
            None => None,
        }
    } else {
        None
    }
}

/// ` = ` at the start of `s`.
pub open spec fn read_equal_at(s: Seq<char>) -> Option<(nat, Seq<char>)> {
    if starts_with(s, " = "@) {
        Some((3, " = "@))
    } else {
        None
    }
}

/// `: type = ` or ` = ` at the start of `s`.
pub open spec fn type_or_not_at(s: Seq<char>) -> Option<(nat, Seq<char>)> {
    match read_type_at(s) {
        Some(x) => Some(x),
        None => read_equal_at(s),
    }
}

/// A declaration `let name = ` or `let name: type = ` at the start of `s`:
/// how many characters it takes, the name, and the declaration's text.
pub open spec fn named_var_at(s: Seq<char>) -> Option<(nat, Seq<char>, Seq<char>)> {
    if starts_with(s, "let "@) {
        match first_in(s.skip(4), seq![' ', ':']) {
            Some(n) => match type_or_not_at(s.skip(4 + n as int)) {
                Some((m, t)) => Some(
                    (4 + n + m, s.subrange(4, 4 + n as int), "let "@ + s.subrange(4, 4 + n as int) + t),
                ),
                None => None,
            },
            None => None,
        }
    } else {
        None
    }
}

proof fn lemma_literals()
    ensures
        ": "@.len() == 2,
        " = "@.len() == 3,
        "let "@.len() == 4,
        " "@ == seq![' '],
        ": "@ == seq![':', ' '],
        " = "@ == seq![' ', '=', ' '],
        "let "@ == seq!['l', 'e', 't', ' '],
        "var "@ == seq!['v', 'a', 'r', ' '],
{
    reveal_strlit(": ");
    reveal_strlit(" = ");
    reveal_strlit("let ");
    reveal_strlit(" ");
    reveal_strlit("var ");
}

fn type_or_not_pos(s: &Vec<char>, pos: usize) -> (r: Option<(usize, Option<usize>)>)
    requires
        pos <= s.len(),
    ensures
        match type_or_not_at(s@.skip(pos as int)) {
            Some((m, t)) => r matches Some((e, ty)) && e == pos + m && e <= s.len() && match ty {
                Some(te) => pos + 2 <= te && te + 3 == e && t == ": "@ + s@.subrange(pos + 2, te as int) + " "@
                    + " = "@,
                None => t == " = "@,
            },
            None => r is None,
        },
{
    proof {
        lemma_literals();
    }
    let ghost t = s@.skip(pos as int);
    let colon = to_chars(": ");
    let eq = to_chars(" = ");
    let sp = to_chars(" ");
    if starts_with_at(s, pos, &colon) {
        assert(t.skip(2) =~= s@.skip(pos + 2));
        if let Some(te) = first_in_from(s, pos + 2, &sp) {
            assert(t.skip(2 + (te - pos - 2)) =~= s@.skip(te as int));
            if starts_with_at(s, te, &eq) {
                assert(t.subrange(2, 2 + (te - pos - 2)) =~= s@.subrange(pos + 2, te as int));
                return Some((te + 3, Some(te)));
            }
        }
    }
    if starts_with_at(s, pos, &eq) {
        Some((pos + 3, None))
    } else {
        None
    }
}

fn named_var_pos(s: &Vec<char>, pos: usize) -> (r: Option<(usize, usize, Option<usize>, usize)>)
    requires
        pos <= s.len(),
    ensures
        match named_var_at(s@.skip(pos as int)) {
            Some((n, name, decl)) => r matches Some((e, ne, ty, te)) && e == pos + n && pos + 4
                <= ne <= te <= e <= s.len() && (ty matches Some(tye) ==> ne + 2 <= tye <= e)
                && name == s@.subrange(pos + 4, ne as int) && decl
                == "let "@ + name + match ty {
                Some(tye) => ": "@ + s@.subrange(ne + 2, tye as int) + " "@ + " = "@,
                None => " = "@,
            },
            None => r is None,
        },
{
    proof {
        lemma_literals();
    }
    let ghost t = s@.skip(pos as int);
    let kw = to_chars("let ");
    if !starts_with_at(s, pos, &kw) {
        return None;
    }
    let mut stops: Vec<char> = Vec::new();
    stops.push(' ');
    stops.push(':');
    assert(stops@ =~= seq![' ', ':']);
    assert(t.skip(4) =~= s@.skip(pos + 4));
    match first_in_from(s, pos + 4, &stops) {
        Some(ne) => {
            assert(t.skip(4 + (ne - pos - 4)) =~= s@.skip(ne as int));
            assert(t.subrange(4, 4 + (ne - pos - 4)) =~= s@.subrange(pos + 4, ne as int));
            match type_or_not_pos(s, ne) {
                Some((e, ty)) => Some((e, ne, ty, ne)),
                None => None,
            }
        },
        None => None,
    }
}


/// `name` as a whole identifier at the start of `s`, after a non-empty run
/// of characters that cannot be part of an identifier: where it ends.
pub open spec fn name_match(s: Seq<char>, name: Seq<char>) -> Option<nat> {
    let a = lead_len(s, CharClass::NotWord);
    match identifier_at(s.skip(a as int)) {
        Some(l) => if a > 0 && s.subrange(a as int, a + l as int) == name {
            Some(a + l)
        } else {
            None
        },
        None => None,
    }
}

/// Where the first `name_match` of `s` ends.
pub open spec fn find_name(s: Seq<char>, name: Seq<char>) -> Option<nat>
    decreases s.len(),
{
    match name_match(s, name) {
        Some(e) => Some(e),
        None => if s.len() == 0 {
            None
        } else {
            match find_name(s.skip(1), name) {
                Some(e) => Some(e + 1),
                None => None,
            }
        },
    }
}

/// The length of the line at the start of `s` and where the next line
/// starts (after `\n` or `\r\n`, or at the end of the text).
pub open spec fn line_end(s: Seq<char>) -> (nat, nat)
    decreases s.len(),
{
    if s.len() == 0 {
        (0, 0)
    } else if s[0] == '\n' {
        (0, 1)
    } else if s.len() > 1 && s[0] == '\r' && s[1] == '\n' {
        (0, 2)
    } else {
        let (l, a) = line_end(s.skip(1));
        (l + 1, a + 1)
    }
}

/// The next use of `name`: where the search ends and whether the rest of
/// that use's line holds ` = `. Where it does, the search ends after the
/// line; where not, after the name.
pub open spec fn search_step(s: Seq<char>, name: Seq<char>) -> Option<(nat, bool)> {
    match find_name(s, name) {
        Some(e) => {
            let (l, a) = line_end(s.skip(e as int));
            if find_first(s.subrange(e as int, e + l as int), " = "@) is Some {
                Some((e + a, true))
            } else {
                Some((e, false))
            }
        },
        None => None,
    }
}

/// All uses of `name` in `s`: how far the searches read and whether one of
/// them is on a line that assigns with ` = `.
pub open spec fn reassign_scan(s: Seq<char>, name: Seq<char>) -> (nat, bool)
    decreases s.len(),
{
    match search_step(s, name) {
        Some((n, b)) => if 0 < n <= s.len() {
            let (m, b2) = reassign_scan(s.skip(n as int), name);
            (n + m, b || b2)
        } else {
            (0, false)
        },
        None => (0, false),
    }
}

/// For a declaration at the start of `s`: how far the search reads and
/// whether the variable is assigned again.
pub open spec fn decl_reassigned(s: Seq<char>) -> Option<(nat, bool)> {
    match named_var_at(s) {
        Some((n, name, decl)) => {
            let (m, b) = reassign_scan(s.skip(n as int), name);
            Some((n + m, b))
        },
        None => None,
    }
}

/// The keyword for the declaration at the start of `s`.
pub open spec fn let_word(s: Seq<char>) -> Seq<char> {
    if decl_reassigned(s) matches Some((n, b)) && b {
        "var "@
    } else {
        "let "@
    }
}

/// Up to the last `let ` of `s`: how many characters that takes and the
/// text with each `let ` replaced by its keyword.
pub open spec fn let_prefix(s: Seq<char>) -> (nat, Seq<char>)
    decreases s.len(),
{
    match find_first(s, "let "@) {
        Some(p) => if p + 4 <= s.len() {
            let (n, o) = let_prefix(s.skip(p + 4int));
            (p + 4 + n, s.take(p as int) + let_word(s.skip(p as int)) + o)
        } else {
            (0, Seq::empty())
        },
        None => (0, Seq::empty()),
    }
}

/// `s` with each `let ` that declares a variable assigned again further on
/// turned into `var `.
pub open spec fn replaced_lets(s: Seq<char>) -> Seq<char> {
    let_prefix(s).1 + s.skip(let_prefix(s).0 as int)
}

pub(crate) fn name_match_pos(s: &Vec<char>, pos: usize, name: &Vec<char>) -> (r: Option<usize>)
    requires
        pos <= s.len(),
    ensures
        match name_match(s@.skip(pos as int), name@) {
            Some(e) => r == Some((pos + e) as usize) && pos + e < s.len(),
            None => r is None,
        },
{
    let ghost t = s@.skip(pos as int);
    let a = class_end(s, pos, CharClass::NotWord);
    assert(t.skip(a - pos) =~= s@.skip(a as int));
    match identifier_end(s, a) {
        Some(e) => {
            assert(t.subrange(a - pos, (a - pos) + (e - a)) =~= s@.subrange(a as int, e as int));
            if a > pos && e - a == name.len() && starts_with_at(s, a, name) {
                assert(s@.skip(a as int).take(name.len() as int) =~= s@.subrange(a as int, e as int));
                Some(e)
            } else {
                proof {
                    if e - a == name.len() && s@.subrange(a as int, e as int) == name@ {
                        assert(s@.skip(a as int).take(name.len() as int) =~= s@.subrange(
                            a as int,
                            e as int,
                        ));
                    }
                }
                None
            }
        },
        None => None,
    }
}

fn find_name_from(s: &Vec<char>, from: usize, name: &Vec<char>) -> (r: Option<usize>)
    requires
        from <= s.len(),
    ensures
        match find_name(s@.skip(from as int), name@) {
            Some(e) => r == Some((from + e) as usize) && from + e < s.len(),
            None => r is None,
        },
{
    let mut k = from;
    loop
        invariant
            from <= k <= s.len(),
            find_name(s@.skip(from as int), name@) == match find_name(s@.skip(k as int), name@) {
                Some(e) => Some((e + (k - from)) as nat),
                None => None::<nat>,
            },
        decreases s.len() - k,
    {
        if let Some(e) = name_match_pos(s, k, name) {
            return Some(e);
        }
        if k == s.len() {
            return None;
        }
        assert(s@.skip(k as int).skip(1) =~= s@.skip(k + 1));
        k = k + 1;
    }
}

fn line_end_pos(s: &Vec<char>, pos: usize) -> (r: (usize, usize))
    requires
        pos <= s.len(),
    ensures
        pos <= r.0 <= r.1 <= s.len(),
        line_end(s@.skip(pos as int)) == ((r.0 - pos) as nat, (r.1 - pos) as nat),
{
    let mut k = pos;
    loop
        invariant
            pos <= k <= s.len(),
            line_end(s@.skip(pos as int)).0 == (k - pos) + line_end(s@.skip(k as int)).0,
            line_end(s@.skip(pos as int)).1 == (k - pos) + line_end(s@.skip(k as int)).1,
        decreases s.len() - k,
    {
        if k == s.len() {
            return (k, k);
        }
        if s[k] == '\n' {
            return (k, k + 1);
        }
        if k + 1 < s.len() && s[k] == '\r' && s[k + 1] == '\n' {
            return (k, k + 2);
        }
        assert(s@.skip(k as int).skip(1) =~= s@.skip(k + 1));
        k = k + 1;
    }
}

fn search_step_pos(s: &Vec<char>, pos: usize, name: &Vec<char>) -> (r: Option<(usize, bool)>)
    requires
        pos <= s.len(),
    ensures
        match search_step(s@.skip(pos as int), name@) {
            Some((n, b)) => r == Some(((pos + n) as usize, b)) && pos + n <= s.len(),
            None => r is None,
        },
{
    let ghost t = s@.skip(pos as int);
    match find_name_from(s, pos, name) {
        Some(e) => {
            let (le, after) = line_end_pos(s, e);
            assert(t.skip(e - pos) =~= s@.skip(e as int));
            let line = crate::text::slice_vec(s, e, le);
            let pat = to_chars(" = ");
            assert(t.subrange(e - pos, (e - pos) + (le - e)) =~= line@);
            assert(line@.skip(0) =~= line@);
            if find_from(&line, 0, &pat).is_some() {
                Some((after, true))
            } else {
                Some((e, false))
            }
        },
        None => None,
    }
}

fn reassign_scan_pos(s: &Vec<char>, pos: usize, name: &Vec<char>) -> (r: (usize, bool))
    requires
        pos <= s.len(),
    ensures
        pos <= r.0 <= s.len(),
        reassign_scan(s@.skip(pos as int), name@) == ((r.0 - pos) as nat, r.1),
{
    let mut k = pos;
    let mut found = false;
    loop
        invariant
            pos <= k <= s.len(),
            reassign_scan(s@.skip(pos as int), name@).0 == (k - pos) + reassign_scan(
                s@.skip(k as int),
                name@,
            ).0,
            reassign_scan(s@.skip(pos as int), name@).1 == (found || reassign_scan(
                s@.skip(k as int),
                name@,
            ).1),
        decreases s.len() - k,
    {
        match search_step_pos(s, k, name) {
            Some((e, b)) => {
                if e == k {
                    return (k, found);
                }
                assert(s@.skip(k as int).skip(e - k) =~= s@.skip(e as int));
                found = found || b;
                k = e;
            },
            None => {
                return (k, found);
            },
        }
    }
}


fn decl_reassigned_pos(s: &Vec<char>, pos: usize) -> (r: Option<(usize, bool)>)
    requires
        pos <= s.len(),
    ensures
        match decl_reassigned(s@.skip(pos as int)) {
            Some((n, b)) => r == Some(((pos + n) as usize, b)) && pos + n <= s.len(),
            None => r is None,
        },
{
    let ghost t = s@.skip(pos as int);
    match named_var_pos(s, pos) {
        Some((e, ne, _ty, _te)) => {
            let name = crate::text::slice_vec(s, pos + 4, ne);
            assert(t.skip(e - pos) =~= s@.skip(e as int));
            let (f, b) = reassign_scan_pos(s, e, &name);
            Some((f, b))
        },
        None => None,
    }
}

fn let_word_at(s: &Vec<char>, pos: usize) -> (r: &'static str)
    requires
        pos <= s.len(),
    ensures
        r@ == let_word(s@.skip(pos as int)),
{
    match decl_reassigned_pos(s, pos) {
        Some((_, true)) => "var ",
        _ => "let ",
    }
}

/// Whether a string that starts an identifier does not start with a digit.
pub fn verify_identifier2(s: &str) -> (r: bool)
    requires
        s@.len() > 0,
    ensures
        r == !(48 <= (s@[0] as u32) <= 57),
{
    let u = s.get_char(0) as u32;
    !(48 <= u && u <= 57)
}

/// Reads a string that could be used as an identifier: a non-empty run of
/// alphanumeric characters and `_` that does not start with a digit.
pub fn string(i: &str) -> (r: ParserResult<String>)
    ensures
        lead_len(i@, CharClass::Ident) > 0 && !(48 <= (i@[0] as u32) <= 57) ==> parsed(
            r,
            i@.skip(lead_len(i@, CharClass::Ident) as int),
            i@.take(lead_len(i@, CharClass::Ident) as int),
        ),
        !(lead_len(i@, CharClass::Ident) > 0 && !(48 <= (i@[0] as u32) <= 57)) ==> r is Err,
{
    let (rest, out) = match crate::nom_helpers::take_class1(i, CharClass::Ident) {
        Ok(x) => x,
        Err(e) => return Err(e),
    };
    if verify_identifier2(i) {
        Ok((rest, out))
    } else {
        Err(ParseError::Mismatch)
    }
}

/// Reads up to the next space, which it leaves unread; gives what it read
/// and a space.
pub fn till_space(i: &str) -> (r: ParserResult<String>)
    ensures
        match first_in(i@, seq![' ']) {
            Some(n) => parsed(r, i@.skip(n as int), i@.take(n as int) + seq![' ']),
            None => r is Err,
        },
{
    let s = to_chars(i);
    let mut stops: Vec<char> = Vec::new();
    stops.push(' ');
    assert(stops@ =~= seq![' ']);
    assert(s@.skip(0) =~= s@);
    match first_in_from(&s, 0, &stops) {
        Some(n) => {
            let mut out = String::new();
            push_range(&mut out, &s, 0, n);
            crate::text::push_char(&mut out, ' ');
            assert(s@.subrange(0, n as int).push(' ') =~= s@.take(n as int) + seq![' ']);
            Ok((suffix(i, n), out))
        },
        None => Err(ParseError::Mismatch),
    }
}

/// Reads up to the next space or colon, which it leaves unread.
pub fn till_space_or_colon(i: &str) -> (r: ParserResult<String>)
    ensures
        match first_in(i@, seq![' ', ':']) {
            Some(n) => parsed(r, i@.skip(n as int), i@.take(n as int)),
            None => r is Err,
        },
{
    let s = to_chars(i);
    let mut stops: Vec<char> = Vec::new();
    stops.push(' ');
    stops.push(':');
    assert(stops@ =~= seq![' ', ':']);
    assert(s@.skip(0) =~= s@);
    match first_in_from(&s, 0, &stops) {
        Some(n) => {
            let mut out = String::new();
            push_range(&mut out, &s, 0, n);
            assert(s@.subrange(0, n as int) =~= s@.take(n as int));
            Ok((suffix(i, n), out))
        },
        None => Err(ParseError::Mismatch),
    }
}

fn decl_text(s: &Vec<char>, ne: usize, ty: Option<usize>) -> (r: String)
    requires
        match ty {
            Some(te) => ne + 2 <= te <= s.len(),
            None => true,
        },
    ensures
        r@ == match ty {
            Some(te) => ": "@ + s@.subrange(ne + 2, te as int) + " "@ + " = "@,
            None => " = "@,
        },
{
    let mut out = String::new();
    match ty {
        Some(te) => {
            out.append(": ");
            push_range(&mut out, s, ne + 2, te);
            out.append(" ");
            out.append(" = ");
        },
        None => {
            out.append(" = ");
        },
    }
    out
}

/// Reads `: type = ` and gives `: `, the type, a space and ` = `.
pub fn read_type(i: &str) -> (r: ParserResult<String>)
    ensures
        match read_type_at(i@) {
            Some((n, t)) => parsed(r, i@.skip(n as int), t),
            None => r is Err,
        },
{
    let s = to_chars(i);
    assert(s@.skip(0) =~= s@);
    proof {
        lemma_literals();
    }
    match type_or_not_pos(&s, 0) {
        Some((e, Some(te))) => {
            let out = decl_text(&s, 0, Some(te));
            Ok((suffix(i, e), out))
        },
        _ => Err(ParseError::Mismatch),
    }
}

/// Reads ` = `.
pub fn read_equal(i: &str) -> (r: ParserResult<String>)
    ensures
        match read_equal_at(i@) {
            Some((n, t)) => parsed(r, i@.skip(n as int), t),
            None => r is Err,
        },
{
    let s = to_chars(i);
    let eq = to_chars(" = ");
    proof {
        lemma_literals();
    }
    if starts_with_at(&s, 0, &eq) {
        assert(s@.skip(0) =~= s@);
        let mut out = String::new();
        out.append(" = ");
        Ok((suffix(i, 3), out))
    } else {
        assert(s@.skip(0) =~= s@);
        Err(ParseError::Mismatch)
    }
}

/// Reads `: type = ` or ` = `.
pub fn either_type_or_not(i: &str) -> (r: ParserResult<String>)
    ensures
        match type_or_not_at(i@) {
            Some((n, t)) => parsed(r, i@.skip(n as int), t),
            None => r is Err,
        },
{
    let s = to_chars(i);
    assert(s@.skip(0) =~= s@);
    match type_or_not_pos(&s, 0) {
        Some((e, ty)) => {
            let out = decl_text(&s, 0, ty);
            Ok((suffix(i, e), out))
        },
        None => Err(ParseError::Mismatch),
    }
}

/// Reads a declaration `let name = ` or `let name: type = ` and gives the
/// name and the declaration's text.
pub fn read_named_var(i: &str) -> (r: ParserResult<(String, String)>)
    ensures
        match named_var_at(i@) {
            Some((n, name, decl)) => r matches Ok((rest, (nm, d))) && rest@ == i@.skip(n as int)
                && nm@ == name && d@ == decl,
            None => r is Err,
        },
{
    let s = to_chars(i);
    assert(s@.skip(0) =~= s@);
    match named_var_pos(&s, 0) {
        Some((e, ne, ty, _te)) => {
            let mut name = String::new();
            push_range(&mut name, &s, 4, ne);
            let mut decl = String::new();
            decl.append("let ");
            push_range(&mut decl, &s, 4, ne);
            let t = decl_text(&s, ne, ty);
            decl.append(t.as_str());
            Ok((suffix(i, e), (name, decl)))
        },
        None => Err(ParseError::Mismatch),
    }
}

/// Reads a declaration `let name = ` or `let name: type = ` and gives the
/// name.
pub fn get_named_var(i: &str) -> (r: ParserResult<String>)
    ensures
        match named_var_at(i@) {
            Some((n, name, decl)) => parsed(r, i@.skip(n as int), name),
            None => r is Err,
        },
{
    let s = to_chars(i);
    assert(s@.skip(0) =~= s@);
    match named_var_pos(&s, 0) {
        Some((e, ne, _ty, _te)) => {
            let mut name = String::new();
            push_range(&mut name, &s, 4, ne);
            Ok((suffix(i, e), name))
        },
        None => Err(ParseError::Mismatch),
    }
}

/// Reads an identifier followed by a character that is not alphanumeric.
pub fn identifier(input: &str) -> (r: ParserResult<&str>)
    ensures
        match identifier_at(input@) {
            Some(l) => r matches Ok((rest, out)) && rest@ == input@.skip(l as int) && out@
                == input@.take(l as int),
            None => r is Err,
        },
{
    crate::nom_helpers::identifier(input)
}

/// Reads up to the next use of `s` as a whole identifier; where the rest of
/// its line holds ` = `, reads the line too and gives `true`, else gives
/// `false`. Fails where `s` is not used again.
pub fn search_identifier_assignment<'a>(s: &str, i: &'a str) -> (r: ParserResult<'a, bool>)
    ensures
        match search_step(i@, s@) {
            Some((n, b)) => r matches Ok((rest, x)) && rest@ == i@.skip(n as int) && x == b,
            None => r is Err,
        },
{
    let t = to_chars(i);
    let name = to_chars(s);
    assert(t@.skip(0) =~= t@);
    match search_step_pos(&t, 0, &name) {
        Some((e, b)) => Ok((suffix(i, e), b)),
        None => Err(ParseError::Mismatch),
    }
}

/// Reads a declaration and all later uses of its variable; gives whether
/// one of them is on a line that assigns with ` = `.
pub fn decl_is_reassigned(i: &str) -> (r: ParserResult<bool>)
    ensures
        match decl_reassigned(i@) {
            Some((n, b)) => r matches Ok((rest, x)) && rest@ == i@.skip(n as int) && x == b,
            None => r is Err,
        },
{
    let s = to_chars(i);
    assert(s@.skip(0) =~= s@);
    match decl_reassigned_pos(&s, 0) {
        Some((e, b)) => Ok((suffix(i, e), b)),
        None => Err(ParseError::Mismatch),
    }
}

/// Gives `var ` where the text starts with a declaration whose variable is
/// assigned again, `let ` otherwise; reads nothing.
pub fn write_var_or_let(i: &str) -> (r: ParserResult<String>)
    ensures
        parsed(r, i@, let_word(i@)),
{
    let s = to_chars(i);
    assert(s@.skip(0) =~= s@);
    let w = let_word_at(&s, 0);
    let mut out = String::new();
    out.append(w);
    Ok((i, out))
}

/// Reads up to and with the first `let `, and writes what it read with the
/// keyword `var ` or `let ` that the declaration calls for.
pub fn replace_1_let(i: &str) -> (r: ParserResult<String>)
    ensures
        match find_first(i@, "let "@) {
            Some(p) => parsed(r, i@.skip(p + 4int), i@.take(p as int) + let_word(i@.skip(p as int))),
            None => r is Err,
        },
{
    let s = to_chars(i);
    let kw = to_chars("let ");
    proof {
        lemma_literals();
    }
    assert(s@.skip(0) =~= s@);
    match find_from(&s, 0, &kw) {
        Some(p) => {
            let mut out = String::new();
            push_range(&mut out, &s, 0, p);
            out.append(let_word_at(&s, p));
            assert(s@.subrange(0, p as int) =~= s@.take(p as int));
            Ok((suffix(i, p + 4), out))
        },
        None => Err(ParseError::Mismatch),
    }
}

/// Reads up to and with the last `let `, writing each `let ` as the keyword
/// that its declaration calls for.
pub fn replace_all_let(i: &str) -> (r: ParserResult<String>)
    ensures
        parsed(r, i@.skip(let_prefix(i@).0 as int), let_prefix(i@).1),
{
    let s = to_chars(i);
    let kw = to_chars("let ");
    proof {
        lemma_literals();
    }
    let mut out = String::new();
    let mut k: usize = 0;
    assert(s@.skip(0) =~= s@);
    loop
        invariant
            k <= s.len(),
            s@ == i@,
            kw@ == "let "@,
            kw@.len() == 4,
            let_prefix(i@).0 == k + let_prefix(s@.skip(k as int)).0,
            let_prefix(i@).1 == out@ + let_prefix(s@.skip(k as int)).1,
        ensures
            k <= s.len(),
            let_prefix(i@).0 == k,
            let_prefix(i@).1 == out@,
        decreases s.len() - k,
    {
        let ghost t = s@.skip(k as int);
        match find_from(&s, k, &kw) {
            Some(p) => {
                let ghost o0 = out@;
                push_range(&mut out, &s, k, p);
                out.append(let_word_at(&s, p));
                proof {
                    assert(t.take(p - k) =~= s@.subrange(k as int, p as int));
                    assert(t.skip(p - k) =~= s@.skip(p as int));
                    assert(t.skip((p - k) + 4) =~= s@.skip(p + 4));
                    assert(out@ =~= o0 + (t.take(p - k) + let_word(t.skip(p - k))));
                }
                k = p + 4;
            },
            None => {
                assert(out@ + Seq::<char>::empty() =~= out@);
                break;
            },
        }
    }
    Ok((suffix(i, k), out))
}

/// Turns each `let ` that declares a variable assigned again further on
/// into `var `; it reads the whole input.
pub fn let2var_parser(i: &str) -> (r: ParserResult<String>)
    ensures
        parsed(r, Seq::empty(), replaced_lets(i@)),
{
    let (rest, replaced) = match replace_all_let(i) {
        Ok(x) => x,
        Err(e) => return Err(e),
    };
    let mut replaced_lets = replaced;
    replaced_lets.append(rest);
    proof {
        reveal_strlit("");
        assert(""@ =~= Seq::<char>::empty());
    }
    Ok(("", replaced_lets))
}

/// Whether the rest of the line at the start of `t` holds ` = `.
pub open spec fn assigns_on_line(t: Seq<char>) -> bool {
    find_first(t.take(line_end(t).0 as int), " = "@) is Some
}

/// Whether a use of `name` starts at `j` in `t` (after characters that
/// cannot be part of an identifier, `name` as a whole identifier) and is
/// followed, on its line, by ` = `.
pub open spec fn use_assigns(t: Seq<char>, name: Seq<char>, j: int) -> bool {
    match name_match(t.skip(j), name) {
        Some(e) => assigns_on_line(t.skip(j + e)),
        None => false,
    }
}

/// Whether some use of `name` in `t` is followed, on its line, by ` = `.
pub open spec fn assigned_later(t: Seq<char>, name: Seq<char>) -> bool {
    exists|j: int| 0 <= j <= t.len() && #[trigger] use_assigns(t, name, j)
}

proof fn lemma_line_end_bounds(s: Seq<char>)
    ensures
        line_end(s).0 <= line_end(s).1 <= s.len(),
    decreases s.len(),
{
    if s.len() > 0 && s[0] != '\n' && !(s.len() > 1 && s[0] == '\r' && s[1] == '\n') {
        lemma_line_end_bounds(s.skip(1));
    }
}

proof fn lemma_name_match_bounds(s: Seq<char>, name: Seq<char>)
    ensures
        name_match(s, name) matches Some(e) ==> 0 < e < s.len(),
{
    lemma_lead_len(s, CharClass::NotWord);
}

proof fn lemma_lead_len_skip(s: Seq<char>, k: CharClass, d: int)
    requires
        0 <= d <= lead_len(s, k),
    ensures
        lead_len(s.skip(d), k) == lead_len(s, k) - d,
    decreases d,
{
    lemma_lead_len(s, k);
    if d == 0 {
        assert(s.skip(0) =~= s);
    } else {
        lemma_lead_len_skip(s.skip(1), k, d - 1);
        assert(s.skip(1).skip(d - 1) =~= s.skip(d));
    }
}

/// Where the first use of `name` in `s` starts: no use starts before it.
proof fn lemma_find_name_start(s: Seq<char>, name: Seq<char>) -> (j: int)
    requires
        find_name(s, name) is Some,
    ensures
        0 <= j <= s.len(),
        j <= find_name(s, name)->0,
        name_match(s.skip(j), name) == Some((find_name(s, name)->0 - j) as nat),
        forall|i: int| 0 <= i < j ==> name_match(#[trigger] s.skip(i), name) is None,
    decreases s.len(),
{
    if name_match(s, name) is Some {
        assert(s.skip(0) =~= s);
        0
    } else {
        let j1 = lemma_find_name_start(s.skip(1), name);
        assert(s.skip(1).skip(j1) =~= s.skip(j1 + 1));
        assert forall|i: int| 0 <= i < j1 + 1 implies name_match(#[trigger] s.skip(i), name) is None by {
            if i == 0 {
                assert(s.skip(0) =~= s);
            } else {
                assert(s.skip(1).skip(i - 1) =~= s.skip(i));
            }
        }
        j1 + 1
    }
}

/// Where no use of `name` is found, there is none.
proof fn lemma_find_name_none(s: Seq<char>, name: Seq<char>)
    requires
        find_name(s, name) is None,
    ensures
        forall|i: int| 0 <= i <= s.len() ==> name_match(#[trigger] s.skip(i), name) is None,
    decreases s.len(),
{
    assert(s.skip(0) =~= s);
    if s.len() > 0 {
        lemma_find_name_none(s.skip(1), name);
        assert forall|i: int| 0 <= i <= s.len() implies name_match(#[trigger] s.skip(i), name) is None by {
            if i > 0 {
                assert(s.skip(1).skip(i - 1) =~= s.skip(i));
            }
        }
    }
}

/// A use that starts inside another use, counting the characters before
/// its name, is that same use: it ends where the other ends.
proof fn lemma_same_use(t: Seq<char>, name: Seq<char>, j0: int, e0: nat, j: int, e: nat)
    requires
        0 <= j0 <= j < j0 + e0,
        j0 + e0 <= t.len(),
        name_match(t.skip(j0), name) == Some(e0),
        name_match(t.skip(j), name) == Some(e),
    ensures
        j + e == j0 + e0,
{
    let u = t.skip(j0);
    let a0 = lead_len(u, CharClass::NotWord);
    let d = j - j0;
    lemma_lead_len(u, CharClass::NotWord);
    assert(u.skip(d) =~= t.skip(j));
    let l0 = identifier_at(u.skip(a0 as int))->0;
    if d < a0 {
        lemma_lead_len_skip(u, CharClass::NotWord, d);
        assert(u.skip(d).skip(a0 - d) =~= u.skip(a0 as int));
        assert(u.skip(d).subrange(a0 - d, a0 - d + l0) =~= u.subrange(a0 as int, (a0 + l0) as int));
    } else {
        let w = u.skip(a0 as int);
        lemma_lead_len(w, CharClass::Word);
        assert(ident_len(w) == l0);
        assert(w[d - a0] == u[d]);
        assert(in_class(CharClass::Word, w[d - a0]));
        assert(t.skip(j)[0] == u[d]);
        assert(lead_len(t.skip(j), CharClass::NotWord) == 0);
    }
}

/// The search over the uses of `name` reports an assignment exactly when
/// some use of `name` in `t` is followed, on its line, by ` = `, whatever
/// uses come before it.
pub proof fn lemma_reassigned_iff_assigned_later(t: Seq<char>, name: Seq<char>)
    ensures
        reassign_scan(t, name).1 == assigned_later(t, name),
    decreases t.len(),
{
    match find_name(t, name) {
        None => {
            lemma_find_name_none(t, name);
        },
        Some(e) => {
            let j0 = lemma_find_name_start(t, name);
            let e0 = (e - j0) as nat;
            lemma_name_match_bounds(t.skip(j0), name);
            let (l, a) = line_end(t.skip(e as int));
            lemma_line_end_bounds(t.skip(e as int));
            assert(t.skip(j0).skip(e0 as int) =~= t.skip(e as int));
            assert(t.subrange(e as int, e + l as int) =~= t.skip(e as int).take(l as int));
            let b = assigns_on_line(t.skip(e as int));
            let n: int = if b { (e + a) as int } else { e as int };
            assert(search_step(t, name) == Some((n as nat, b)));
            assert(0 < n <= t.len());
            lemma_reassigned_iff_assigned_later(t.skip(n), name);
            if b {
                assert(name_match(t.skip(j0), name) == Some(e0));
                assert(j0 + e0 == e);
                assert(use_assigns(t, name, j0));
                assert(assigned_later(t, name));
            } else {
                if assigned_later(t.skip(n), name) {
                    let j1 = choose|j1: int|
                        0 <= j1 <= t.skip(n).len() && #[trigger] use_assigns(t.skip(n), name, j1);
                    let e1 = name_match(t.skip(n).skip(j1), name)->0;
                    lemma_name_match_bounds(t.skip(n).skip(j1), name);
                    assert(t.skip(n).skip(j1) =~= t.skip(n + j1));
                    assert(t.skip(n).skip(j1 + e1) =~= t.skip(n + j1 + e1));
                    assert(name_match(t.skip(n + j1), name) == Some(e1));
                    assert(use_assigns(t, name, n + j1));
                    assert(assigned_later(t, name));
                }
                if assigned_later(t, name) {
                    let j = choose|j: int| 0 <= j <= t.len() && #[trigger] use_assigns(t, name, j);
                    let e1 = name_match(t.skip(j), name)->0;
                    lemma_name_match_bounds(t.skip(j), name);
                    if j < e {
                        if j < j0 {
                            assert(name_match(t.skip(j), name) is None);
                        }
                        lemma_same_use(t, name, j0, e0, j, e1);
                    } else {
                        assert(t.skip(n).skip(j - n) =~= t.skip(j));
                        assert(t.skip(n).skip(j - n + e1) =~= t.skip(j + e1));
                        assert(name_match(t.skip(n).skip(j - n), name) == Some(e1));
                        assert(use_assigns(t.skip(n), name, j - n));
                        assert(assigned_later(t.skip(n), name));
                    }
                }
            }
        },
    }
}

/// A declaration `let name = ...` becomes `var name = ...` exactly when some
/// later use of `name` is followed, on its line, by ` = `, reads of it that
/// come first or not.
pub proof fn lemma_let_becomes_var_when_assigned(s: Seq<char>)
    ensures
        (let_word(s) == "var "@) == (named_var_at(s) matches Some((n, name, decl))
            && assigned_later(s.skip(n as int), name)),
{
    lemma_literals();
    if let Some((n, name, decl)) = named_var_at(s) {
        lemma_reassigned_iff_assigned_later(s.skip(n as int), name);
    }
}

} // verus!
