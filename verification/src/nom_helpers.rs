//! Shared pieces of the text passes that rewrite printed WGSL.

use vstd::prelude::*;
use crate::text::{
    first_in, first_in_from, is_alphanumeric, is_alphanumeric_char, is_ascii_alnum, push_char,
    push_range, suffix, to_chars,
};

verus! {

/// A text parser's failure: nothing of the expected shape was found.
#[derive(Debug, Clone, Copy, PartialEq, Eq, Structural)]
pub enum ParseError {
    Mismatch,
}

/// What a text parser returns: the input that is left and what it made of
/// the part it read, or why it failed.
pub type ParserResult<'a, O> = Result<(&'a str, O), ParseError>;

/// `r` is a success that leaves the text `rest` and gives the text `out`.
pub open spec fn parsed(r: ParserResult<String>, rest: Seq<char>, out: Seq<char>) -> bool {
    r matches Ok((x, o)) && x@ == rest && o@ == out
}

/// The texts of a list of strings.
pub open spec fn views(v: Seq<String>) -> Seq<Seq<char>> {
    Seq::new(v.len(), |j: int| v[j]@)
}

/// The kinds of characters that the passes read in runs.
#[derive(Debug, Clone, Copy, PartialEq, Eq, Structural)]
pub enum CharClass {
    /// Alphanumeric characters and `_`.
    Ident,
    /// Alphanumeric characters, `_` and `.`.
    IdentNum,
    /// Alphanumeric characters, `_`, `<` and `>`.
    IdentType,
    /// Alphanumeric characters, `_` and `#`.
    IdentHash,
    /// Spaces, tabs, carriage returns and line feeds.
    Space,
    /// Spaces and tabs.
    Blank,
    /// ASCII letters, ASCII digits and `_`.
    Word,
    /// Everything but ASCII letters, ASCII digits and `_`.
    NotWord,
}

/// Whether `c` is an ASCII letter, an ASCII digit or `_`.
pub open spec fn is_ascii_word(c: char) -> bool {
    is_ascii_alnum(c) || c == '_'
}

/// Whether `c` is an ASCII letter.
pub open spec fn is_ascii_alpha(c: char) -> bool {
    (97 <= (c as u32) <= 122) || (65 <= (c as u32) <= 90)
}

/// Whether `c` belongs to the class `k`.
pub open spec fn in_class(k: CharClass, c: char) -> bool {
    match k {
        CharClass::Ident => is_alphanumeric_char(c) || c == '_',
        CharClass::IdentNum => is_alphanumeric_char(c) || c == '_' || c == '.',
        CharClass::IdentType => is_alphanumeric_char(c) || c == '_' || c == '<' || c == '>',
        CharClass::IdentHash => is_alphanumeric_char(c) || c == '_' || c == '#',
        CharClass::Space => c == ' ' || c == '\t' || c == '\r' || c == '\n',
        CharClass::Blank => c == ' ' || c == '\t',
        CharClass::Word => is_ascii_word(c),
        CharClass::NotWord => !is_ascii_word(c),
    }
}

/// How many characters at the start of `s` belong to the class `k`.
pub open spec fn lead_len(s: Seq<char>, k: CharClass) -> nat
    decreases s.len(),
{
    if s.len() > 0 && in_class(k, s[0]) {
        1 + lead_len(s.skip(1), k)
    } else {
        0
    }
}

/// A run of class `k` is no longer than the text.
pub proof fn lemma_lead_len(s: Seq<char>, k: CharClass)
    ensures
        lead_len(s, k) <= s.len(),
        forall|j: int| 0 <= j < lead_len(s, k) ==> in_class(k, #[trigger] s[j]),
        lead_len(s, k) < s.len() ==> !in_class(k, s[lead_len(s, k) as int]),
    decreases s.len(),
{
    if s.len() > 0 && in_class(k, s[0]) {
        lemma_lead_len(s.skip(1), k);
        assert forall|j: int| 0 <= j < lead_len(s, k) implies in_class(k, #[trigger] s[j]) by {
            if j > 0 {
                assert(s[j] == s.skip(1)[j - 1]);
            }
        }
    }
}

/// Alphanumeric characters and `_`: the characters of an identifier.
pub fn identifier_pred(ch: char) -> (r: bool)
    ensures
        r == in_class(CharClass::Ident, ch),
{
    is_alphanumeric(ch) || ch == '_'
}

/// Whether a piece of text read as an identifier does not start with a
/// digit; the text is never empty.
pub fn verify_identifier(s: &str) -> (r: bool)
    requires
        s@.len() > 0,
    ensures
        r == !(48 <= (s@[0] as u32) <= 57),
{
    let u = s.get_char(0) as u32;
    !(48 <= u && u <= 57)
}

/// The characters of an identifier, and `.`.
pub fn identifier_num_pred(ch: char) -> (r: bool)
    ensures
        r == in_class(CharClass::IdentNum, ch),
{
    is_alphanumeric(ch) || ch == '_' || ch == '.'
}

fn identifier_hashtag(ch: char) -> (r: bool)
    ensures
        r == in_class(CharClass::IdentHash, ch),
{
    is_alphanumeric(ch) || ch == '_' || ch == '#'
}

fn multispace_pred(ch: char) -> (r: bool)
    ensures
        r == in_class(CharClass::Space, ch),
{
    ch == ' ' || ch == '\t' || ch == '\r' || ch == '\n'
}

fn ascii_alpha(c: char) -> (r: bool)
    ensures
        r == is_ascii_alpha(c),
{
    let u = c as u32;
    (97 <= u && u <= 122) || (65 <= u && u <= 90)
}

fn ascii_word(c: char) -> (r: bool)
    ensures
        r == is_ascii_word(c),
{
    let u = c as u32;
    ascii_alpha(c) || (48 <= u && u <= 57) || c == '_'
}

/// Whether `c` belongs to the class `k`.
pub fn class_has(k: CharClass, c: char) -> (r: bool)
    ensures
        r == in_class(k, c),
{
    match k {
        CharClass::Ident => identifier_pred(c),
        CharClass::IdentNum => identifier_num_pred(c),
        CharClass::IdentType => crate::replace_main::identifier_type_pred(c),
        CharClass::IdentHash => identifier_hashtag(c),
        CharClass::Space => multispace_pred(c),
        CharClass::Blank => c == ' ' || c == '\t',
        CharClass::Word => ascii_word(c),
        CharClass::NotWord => !ascii_word(c),
    }
}

/// Where the run of class `k` that starts at `from` ends.
pub fn class_end(s: &Vec<char>, from: usize, k: CharClass) -> (r: usize)
    requires
        from <= s.len(),
    ensures
        from <= r <= s.len(),
        r - from == lead_len(s@.skip(from as int), k),
{
    let mut e = from;
    while e < s.len() && class_has(k, s[e])
        invariant
            from <= e <= s.len(),
            lead_len(s@.skip(from as int), k) == (e - from) + lead_len(s@.skip(e as int), k),
        decreases s.len() - e,
    {
        assert(s@.skip(e as int).skip(1) =~= s@.skip(e + 1));
        e = e + 1;
    }
    e
}

/// Reads a non-empty run of class `k`.
pub(crate) fn take_class1(i: &str, k: CharClass) -> (r: ParserResult<String>)
    ensures
        lead_len(i@, k) == 0 ==> r is Err,
        lead_len(i@, k) > 0 ==> parsed(r, i@.skip(lead_len(i@, k) as int), i@.take(lead_len(i@, k) as int)),
{
    let s = to_chars(i);
    assert(s@.skip(0) =~= s@);
    let e = class_end(&s, 0, k);
    if e == 0 {
        return Err(ParseError::Mismatch);
    }
    let mut out = String::new();
    push_range(&mut out, &s, 0, e);
    assert(s@.subrange(0, e as int) =~= s@.take(e as int));
    Ok((suffix(i, e), out))
}

/// Reads a non-empty run of identifier characters and dots.
pub fn anychar_underscore(i: &str) -> (r: ParserResult<String>)
    ensures
        lead_len(i@, CharClass::IdentNum) == 0 ==> r is Err,
        lead_len(i@, CharClass::IdentNum) > 0 ==> parsed(
            r,
            i@.skip(lead_len(i@, CharClass::IdentNum) as int),
            i@.take(lead_len(i@, CharClass::IdentNum) as int),
        ),
{
    take_class1(i, CharClass::IdentNum)
}

/// Reads a non-empty run of identifier characters and dots.
pub fn anychar_underscore_dot(i: &str) -> (r: ParserResult<String>)
    ensures
        lead_len(i@, CharClass::IdentNum) == 0 ==> r is Err,
        lead_len(i@, CharClass::IdentNum) > 0 ==> parsed(
            r,
            i@.skip(lead_len(i@, CharClass::IdentNum) as int),
            i@.take(lead_len(i@, CharClass::IdentNum) as int),
        ),
{
    take_class1(i, CharClass::IdentNum)
}

/// Reads a non-empty run of identifier characters and `#`.
pub fn anychar_underscore_hashtag(i: &str) -> (r: ParserResult<String>)
    ensures
        lead_len(i@, CharClass::IdentHash) == 0 ==> r is Err,
        lead_len(i@, CharClass::IdentHash) > 0 ==> parsed(
            r,
            i@.skip(lead_len(i@, CharClass::IdentHash) as int),
            i@.take(lead_len(i@, CharClass::IdentHash) as int),
        ),
{
    take_class1(i, CharClass::IdentHash)
}


/// The position of the first `(`, `)` or `,` in `s`.
pub open spec fn delim_pos(s: Seq<char>) -> Option<nat>
    decreases s.len(),
{
    if s.len() == 0 {
        None
    } else if s[0] == '(' || s[0] == ')' || s[0] == ',' {
        Some(0)
    } else {
        match delim_pos(s.skip(1)) {
            Some(n) => Some(n + 1),
            None => None,
        }
    }
}

/// Reads up to the next `(`, `)` or `,`, which it leaves unread; gives the
/// text before it and the delimiter.
pub fn till_next_paren_or_comma(i: &str) -> (r: ParserResult<(String, String)>)
    ensures
        match delim_pos(i@) {
            Some(n) => r matches Ok((rest, (text, delim))) && rest@ == i@.skip(n as int) && text@
                == i@.take(n as int) && delim@ == seq![i@[n as int]],
            None => r is Err,
        },
{
    let s = to_chars(i);
    let mut k: usize = 0;
    assert(s@.skip(0) =~= s@);
    while k < s.len() && !(s[k] == '(' || s[k] == ')' || s[k] == ',')
        invariant
            k <= s.len(),
            s@ == i@,
            delim_pos(i@) == match delim_pos(s@.skip(k as int)) {
                Some(n) => Some((n + k) as nat),
                None => None::<nat>,
            },
        decreases s.len() - k,
    {
        assert(s@.skip(k as int).skip(1) =~= s@.skip(k + 1));
        k = k + 1;
    }
    if k == s.len() {
        return Err(ParseError::Mismatch);
    }
    let mut text = String::new();
    push_range(&mut text, &s, 0, k);
    let mut delim = String::new();
    crate::text::push_char(&mut delim, s[k]);
    assert(s@.subrange(0, k as int) =~= s@.take(k as int));
    assert(delim@ =~= seq![i@[k as int]]);
    Ok((suffix(i, k), (text, delim)))
}

/// The length of the call argument at the start of `s`, inside `depth`
/// parentheses that it opened: up to the first `,` or `)` outside them.
/// `None` where the text ends first.
pub open spec fn arg_len(s: Seq<char>, depth: nat) -> Option<nat>
    decreases s.len(),
{
    if s.len() == 0 {
        None
    } else if (s[0] == ',' || s[0] == ')') && depth == 0 {
        Some(0)
    } else {
        let d: nat = if s[0] == '(' {
            depth + 1
        } else if s[0] == ')' {
            (depth - 1) as nat
        } else {
            depth
        };
        match arg_len(s.skip(1), d) {
            Some(n) => Some(n + 1),
            None => None,
        }
    }
}

/// Where the call argument that starts at `pos` ends.
pub fn arg_end(s: &Vec<char>, pos: usize) -> (r: Option<usize>)
    requires
        pos <= s.len(),
    ensures
        match arg_len(s@.skip(pos as int), 0) {
            Some(n) => r == Some((pos + n) as usize) && pos + n < s.len(),
            None => r is None,
        },
{
    let mut k = pos;
    let mut depth: usize = 0;
    assert(s@.skip(pos as int).skip(0) =~= s@.skip(pos as int));
    while k < s.len()
        invariant
            pos <= k <= s.len(),
            depth <= k - pos,
            arg_len(s@.skip(pos as int), 0) == match arg_len(s@.skip(k as int), depth as nat) {
                Some(n) => Some((n + (k - pos)) as nat),
                None => None::<nat>,
            },
        decreases s.len() - k,
    {
        let c = s[k];
        if (c == ',' || c == ')') && depth == 0 {
            return Some(k);
        }
        assert(s@.skip(k as int).skip(1) =~= s@.skip(k + 1));
        if c == '(' {
            depth = depth + 1;
        } else if c == ')' {
            depth = depth - 1;
        }
        k = k + 1;
    }
    None
}

/// Reads one argument of a function call: up to the first `,` or `)` that
/// is not inside parentheses opened in the argument, which it leaves unread.
pub fn argument1(i: &str) -> (r: ParserResult<String>)
    ensures
        match arg_len(i@, 0) {
            Some(n) => parsed(r, i@.skip(n as int), i@.take(n as int)),
            None => r is Err,
        },
{
    let s = to_chars(i);
    assert(s@.skip(0) =~= s@);
    match arg_end(&s, 0) {
        Some(e) => {
            let mut out = String::new();
            push_range(&mut out, &s, 0, e);
            assert(s@.subrange(0, e as int) =~= s@.take(e as int));
            Ok((suffix(i, e), out))
        },
        None => Err(ParseError::Mismatch),
    }
}

/// One item of a call's argument list: blanks, the argument, blanks. How
/// many characters it takes and the argument.
pub open spec fn arg_item(s: Seq<char>) -> Option<(nat, Seq<char>)> {
    let w = lead_len(s, CharClass::Space);
    match arg_len(s.skip(w as int), 0) {
        Some(a) => Some(
            (
                w + a + lead_len(s.skip(w + a as int), CharClass::Space),
                s.subrange(w as int, w + a as int),
            ),
        ),
        None => None,
    }
}

/// The items after the first one, each after a `,`.
pub open spec fn more_args(s: Seq<char>) -> (nat, Seq<Seq<char>>)
    decreases s.len(),
{
    if s.len() > 0 && s[0] == ',' {
        match arg_item(s.skip(1)) {
            Some((n, a)) => if 1 + n <= s.len() {
                let (m, more) = more_args(s.skip(1 + n as int));
                (1 + n + m, seq![a] + more)
            } else {
                (0, Seq::empty())
            },
            None => (0, Seq::empty()),
        }
    } else {
        (0, Seq::empty())
    }
}

/// The argument list of a call, `(` items separated by `,` `)`, at the start
/// of `s`: how many characters it takes and the arguments.
pub open spec fn call_args(s: Seq<char>) -> Option<(nat, Seq<Seq<char>>)> {
    if s.len() > 0 && s[0] == '(' {
        let (n, args) = match arg_item(s.skip(1)) {
            Some((n0, a)) => {
                let (m, more) = more_args(s.skip(1 + n0 as int));
                (n0 + m, seq![a] + more)
            },
            None => (0nat, Seq::empty()),
        };
        if 1 + n < s.len() && s[1 + n as int] == ')' {
            Some((n + 2, args))
        } else {
            None
        }
    } else {
        None
    }
}

fn item_at(s: &Vec<char>, pos: usize) -> (r: Option<(usize, usize, usize)>)
    requires
        pos <= s.len(),
    ensures
        match arg_item(s@.skip(pos as int)) {
            Some((n, a)) => r matches Some((e, b, c)) && e == pos + n && pos <= b <= c <= e <= s.len()
                && a == s@.subrange(b as int, c as int),
            None => r is None,
        },
{
    let ghost t = s@.skip(pos as int);
    let b = class_end(s, pos, CharClass::Space);
    assert(t.skip(b - pos) =~= s@.skip(b as int));
    match arg_end(s, b) {
        Some(c) => {
            let e = class_end(s, c, CharClass::Space);
            assert(t.skip(c - pos) =~= s@.skip(c as int));
            assert(t.subrange(b - pos, c - pos) =~= s@.subrange(b as int, c as int));
            Some((e, b, c))
        },
        None => None,
    }
}

/// The argument list of the call whose `(` is at `pos`: where it ends and
/// the arguments.
pub fn call_args_at(s: &Vec<char>, pos: usize) -> (r: Option<(usize, Vec<String>)>)
    requires
        pos <= s.len(),
    ensures
        match call_args(s@.skip(pos as int)) {
            Some((n, args)) => r matches Some((e, out)) && e == pos + n && e <= s.len() && out@.len()
                == args.len() && forall|j: int| 0 <= j < args.len() ==> (#[trigger] out@[j])@
                == args[j],
            None => r is None,
        },
{
    let ghost t = s@.skip(pos as int);
    if pos == s.len() || s[pos] != '(' {
        return None;
    }
    assert(t.skip(1) =~= s@.skip(pos + 1));
    let mut out: Vec<String> = Vec::new();
    let ghost mut views: Seq<Seq<char>> = Seq::empty();
    let mut k = pos + 1;
    if let Some((e, b, c)) = item_at(s, pos + 1) {
        let mut a = String::new();
        push_range(&mut a, s, b, c);
        out.push(a);
        proof {
            views = seq![s@.subrange(b as int, c as int)];
        }
        let ghost n0 = e;
        assert(t.skip(1 + (e - pos - 1)) =~= s@.skip(e as int));
        k = e;
        loop
            invariant
                n0 <= k <= s.len(),
                out@.len() == views.len(),
                forall|j: int| 0 <= j < views.len() ==> (#[trigger] out@[j])@ == views[j],
                more_args(s@.skip(n0 as int)).0 == (k - n0) + more_args(s@.skip(k as int)).0,
                seq![s@.subrange(b as int, c as int)] + more_args(s@.skip(n0 as int)).1 == views
                    + more_args(s@.skip(k as int)).1,
            ensures
                n0 <= k <= s.len(),
                out@.len() == views.len(),
                forall|j: int| 0 <= j < views.len() ==> (#[trigger] out@[j])@ == views[j],
                more_args(s@.skip(n0 as int)).0 == k - n0,
                seq![s@.subrange(b as int, c as int)] + more_args(s@.skip(n0 as int)).1 == views,
            decreases s.len() - k,
        {
            let ghost u = s@.skip(k as int);
            if k == s.len() || s[k] != ',' {
                assert(views + Seq::<Seq<char>>::empty() =~= views);
                break;
            }
            assert(u.skip(1) =~= s@.skip(k + 1));
            match item_at(s, k + 1) {
                Some((e2, b2, c2)) => {
                    assert(u.skip(e2 - k) =~= s@.skip(e2 as int));
                    let mut a2 = String::new();
                    push_range(&mut a2, s, b2, c2);
                    out.push(a2);
                    proof {
                        let ghost vw = s@.subrange(b2 as int, c2 as int);
                        assert(views.push(vw) + more_args(s@.skip(e2 as int)).1 =~= views + (seq![vw]
                            + more_args(s@.skip(e2 as int)).1));
                        views = views.push(vw);
                    }
                    k = e2;
                },
                None => {
                    assert(views + Seq::<Seq<char>>::empty() =~= views);
                    break;
                },
            }
        }
    }
    assert(t[(k - pos) as int] == s@[k as int] || k == s.len());
    if k < s.len() && s[k] == ')' {
        Some((k + 1, out))
    } else {
        None
    }
}

/// Reads the argument list of a function call, `(` arguments separated by
/// `,` `)`, and gives the arguments without the blanks around them.
pub fn function_call_args_anychar(i: &str) -> (r: ParserResult<Vec<String>>)
    ensures
        match call_args(i@) {
            Some((n, args)) => r matches Ok((rest, out)) && rest@ == i@.skip(n as int) && out@.len()
                == args.len() && forall|j: int| 0 <= j < args.len() ==> (#[trigger] out@[j])@
                == args[j],
            None => r is Err,
        },
{
    let s = to_chars(i);
    assert(s@.skip(0) =~= s@);
    match call_args_at(&s, 0) {
        Some((e, out)) => Ok((suffix(i, e), out)),
        None => Err(ParseError::Mismatch),
    }
}


/// The length of the identifier at the start of `s`: a letter or `_`, then
/// letters, digits and `_` (ASCII); 0 where there is none.
pub open spec fn ident_len(s: Seq<char>) -> nat {
    if s.len() > 0 && (is_ascii_alpha(s[0]) || s[0] == '_') {
        lead_len(s, CharClass::Word)
    } else {
        0
    }
}

/// The length of the identifier at the start of `s` where a character
/// follows it that is not alphanumeric.
pub open spec fn identifier_at(s: Seq<char>) -> Option<nat> {
    let l = ident_len(s);
    if l > 0 && l < s.len() && !is_alphanumeric_char(s[l as int]) {
        Some(l)
    } else {
        None
    }
}

/// Where the identifier that starts at `pos` ends, if a character follows it
/// that is not alphanumeric.
pub fn identifier_end(s: &Vec<char>, pos: usize) -> (r: Option<usize>)
    requires
        pos <= s.len(),
    ensures
        match identifier_at(s@.skip(pos as int)) {
            Some(l) => r == Some((pos + l) as usize) && pos + l < s.len(),
            None => r is None,
        },
{
    let ghost t = s@.skip(pos as int);
    if pos == s.len() || !(ascii_alpha(s[pos]) || s[pos] == '_') {
        return None;
    }
    let e = class_end(s, pos, CharClass::Word);
    proof {
        lemma_lead_len(t, CharClass::Word);
    }
    if e < s.len() && !is_alphanumeric(s[e]) {
        Some(e)
    } else {
        None
    }
}

/// Reads an identifier (a letter or `_`, then letters, digits and `_`),
/// which must be followed by a character that is not alphanumeric.
pub fn identifier(input: &str) -> (r: ParserResult<&str>)
    ensures
        match identifier_at(input@) {
            Some(l) => r matches Ok((rest, out)) && rest@ == input@.skip(l as int) && out@
                == input@.take(l as int),
            None => r is Err,
        },
{
    let s = to_chars(input);
    assert(s@.skip(0) =~= s@);
    match identifier_end(&s, 0) {
        Some(e) => {
            let out = input.substring_char(0, e);
            assert(s@.subrange(0, e as int) =~= s@.take(e as int));
            Ok((suffix(input, e), out))
        },
        None => Err(ParseError::Mismatch),
    }
}


/// Reads up to and with the next `{` or `}`; gives the text before it and
/// the brace.
pub fn till_next_brace(i: &str) -> (r: ParserResult<(String, String)>)
    ensures
        match first_in(i@, seq!['{', '}']) {
            Some(n) => r matches Ok((rest, (text, brace))) && rest@ == i@.skip(n + 1int) && text@
                == i@.take(n as int) && brace@ == seq![i@[n as int]],
            None => r is Err,
        },
{
    let s = to_chars(i);
    let braces = brace_chars();
    assert(s@.skip(0) =~= s@);
    match first_in_from(&s, 0, &braces) {
        Some(n) => {
            let mut text = String::new();
            push_range(&mut text, &s, 0, n);
            let mut brace = String::new();
            push_char(&mut brace, s[n]);
            assert(s@.subrange(0, n as int) =~= s@.take(n as int));
            assert(brace@ =~= seq![i@[n as int]]);
            Ok((suffix(i, n + 1), (text, brace)))
        },
        None => Err(ParseError::Mismatch),
    }
}

fn brace_chars() -> (r: Vec<char>)
    ensures
        r@ == seq!['{', '}'],
{
    let mut r: Vec<char> = Vec::new();
    r.push('{');
    r.push('}');
    assert(r@ =~= seq!['{', '}']);
    r
}

/// The length of a block's text read from inside `scope` open braces, up to
/// and with the brace that closes the outermost one; `None` where the text
/// ends first, or where a `}` comes with no brace open.
pub open spec fn body_len(s: Seq<char>, scope: nat) -> Option<nat>
    decreases s.len(),
{
    match first_in(s, seq!['{', '}']) {
        Some(n) => if n < s.len() {
            if s[n as int] == '{' {
                match body_len(s.skip(n + 1int), scope + 1) {
                    Some(m) => Some(n + 1 + m),
                    None => None,
                }
            } else if scope == 1 {
                Some(n + 1)
            } else if scope > 1 {
                match body_len(s.skip(n + 1int), (scope - 1) as nat) {
                    Some(m) => Some(n + 1 + m),
                    None => None,
                }
            } else {
                None
            }
        } else {
            None
        },
        None => None,
    }
}

/// Reading a block from inside `scope` open braces never closes a brace
/// that is not open, and never has more than `u32::MAX` braces open.
pub open spec fn body_ok(s: Seq<char>, scope: nat) -> bool
    decreases s.len(),
{
    match first_in(s, seq!['{', '}']) {
        Some(n) => if n < s.len() {
            if s[n as int] == '{' {
                scope + 1 <= u32::MAX && body_ok(s.skip(n + 1int), scope + 1)
            } else {
                scope >= 1 && (scope > 1 ==> body_ok(s.skip(n + 1int), (scope - 1) as nat))
            }
        } else {
            true
        },
        None => true,
    }
}

/// Where the block read from `pos`, inside `scope` open braces, ends.
pub fn body_end(s: &Vec<char>, pos: usize, scope: u32) -> (r: Option<usize>)
    requires
        pos <= s.len(),
        body_ok(s@.skip(pos as int), scope as nat),
    ensures
        match body_len(s@.skip(pos as int), scope as nat) {
            Some(n) => r == Some((pos + n) as usize) && pos + n <= s.len(),
            None => r is None,
        },
{
    let braces = brace_chars();
    let mut k = pos;
    let mut depth = scope;
    let ghost s0 = scope as nat;
    loop
        invariant
            pos <= k <= s.len(),
            braces@ == seq!['{', '}'],
            s0 == scope as nat,
            body_ok(s@.skip(k as int), depth as nat),
            depth == 0 ==> k == pos,
            body_len(s@.skip(pos as int), s0) == match body_len(s@.skip(k as int), depth as nat) {
                Some(m) => Some((m + (k - pos)) as nat),
                None => None::<nat>,
            },
        decreases s.len() - k,
    {
        match first_in_from(s, k, &braces) {
            Some(n) => {
                let ghost t = s@.skip(k as int);
                assert(t[(n - k) as int] == s@[n as int]);
                assert(t.skip((n - k) + 1) =~= s@.skip(n + 1));
                if s[n] == '{' {
                    depth = depth + 1;
                    k = n + 1;
                } else {
                    if depth == 1 {
                        return Some(n + 1);
                    }
                    depth = depth - 1;
                    k = n + 1;
                }
            },
            None => {
                return None;
            },
        }
    }
}

/// Reads a block from inside `scope` open braces, up to and with the brace
/// that closes the outermost one, and gives what it read.
pub fn get_function_body(i: &str, scope: u32) -> (r: ParserResult<String>)
    requires
        body_ok(i@, scope as nat),
    ensures
        match body_len(i@, scope as nat) {
            Some(n) => parsed(r, i@.skip(n as int), i@.take(n as int)),
            None => r is Err,
        },
{
    let s = to_chars(i);
    assert(s@.skip(0) =~= s@);
    match body_end(&s, 0, scope) {
        Some(e) => {
            let mut out = String::new();
            push_range(&mut out, &s, 0, e);
            assert(s@.subrange(0, e as int) =~= s@.take(e as int));
            Ok((suffix(i, e), out))
        },
        None => Err(ParseError::Mismatch),
    }
}


/// `s` read after the text `acc`, with each identifier `v` written as `num`
/// where the character written before it is not alphanumeric; an identifier
/// at the very start of the text is kept. Where `v` is empty, `num` is put
/// after the text when its last character is not alphanumeric.
pub open spec fn replace_ident_from(s: Seq<char>, v: Seq<char>, num: Seq<char>, acc: Seq<char>) -> Seq<
    char,
>
    decreases s.len(),
{
    if s.len() == 0 {
        if v.len() == 0 && acc.len() > 0 && !is_alphanumeric_char(acc.last()) {
            acc + num
        } else {
            acc
        }
    } else {
        match identifier_at(s) {
            Some(l) => if s.take(l as int) == v {
                let piece = if acc.len() > 0 && !is_alphanumeric_char(acc.last()) {
                    num
                } else {
                    v
                };
                replace_ident_from(s.skip(l as int), v, num, acc + piece)
            } else {
                replace_ident_from(s.skip(1), v, num, acc.push(s[0]))
            },
            None => replace_ident_from(s.skip(1), v, num, acc.push(s[0])),
        }
    }
}

/// `s` with the identifier `v` written as `num` where it does not follow an
/// alphanumeric character (see `replace_ident_from`).
pub open spec fn replaced_ident(s: Seq<char>, v: Seq<char>, num: Seq<char>) -> Seq<char> {
    replace_ident_from(s, v, num, Seq::empty())
}

/// Replaces the identifier `v` by `num` wherever the character before it is
/// not alphanumeric; it reads the whole input.
pub fn search_and_replace_identifier(i: &str, v: String, num: String) -> (r: ParserResult<String>)
    ensures
        parsed(r, Seq::empty(), replaced_ident(i@, v@, num@)),
{
    let s = to_chars(i);
    let vs = to_chars(v.as_str());
    let ns = to_chars(num.as_str());
    let mut out = String::new();
    let mut last: Option<char> = None;
    let mut k: usize = 0;
    assert(s@.skip(0) =~= s@);
    while k < s.len()
        invariant
            k <= s.len(),
            s@ == i@,
            vs@ == v@,
            ns@ == num@,
            last == (if out@.len() > 0 {
                Some(out@.last())
            } else {
                None::<char>
            }),
            replaced_ident(i@, v@, num@) == replace_ident_from(s@.skip(k as int), v@, num@, out@),
        decreases s.len() - k,
    {
        let ghost t = s@.skip(k as int);
        let m = identifier_end(&s, k);
        let mut matched = false;
        if let Some(e) = m {
            if e - k == vs.len() && crate::text::starts_with_at(&s, k, &vs) {
                matched = true;
                assert(t.take((e - k) as int) =~= s@.skip(k as int).take(vs.len() as int));
                assert(t.skip((e - k) as int) =~= s@.skip(e as int));
                let keep = match last {
                    Some(c) => is_alphanumeric(c),
                    None => true,
                };
                if keep {
                    push_range(&mut out, &vs, 0, vs.len());
                    assert(vs@.subrange(0, vs.len() as int) =~= vs@);
                    if vs.len() > 0 {
                        last = Some(vs[vs.len() - 1]);
                    }
                } else {
                    push_range(&mut out, &ns, 0, ns.len());
                    assert(ns@.subrange(0, ns.len() as int) =~= ns@);
                    if ns.len() > 0 {
                        last = Some(ns[ns.len() - 1]);
                    }
                }
                k = e;
            } else {
                proof {
                    if t.take((e - k) as int) == v@ {
                        assert(s@.skip(k as int).take(vs.len() as int) =~= t.take((e - k) as int));
                    }
                }
            }
        }
        if !matched {
            assert(t.skip(1) =~= s@.skip(k + 1));
            assert(t[0] == s@[k as int]);
            push_char(&mut out, s[k]);
            last = Some(s[k]);
            k = k + 1;
        }
    }
    if vs.len() == 0 {
        if let Some(c) = last {
            if !is_alphanumeric(c) {
                push_range(&mut out, &ns, 0, ns.len());
                assert(ns@.subrange(0, ns.len() as int) =~= ns@);
            }
        }
    }
    assert(s@.skip(k as int).len() == 0);
    proof {
        reveal_strlit("");
        assert(""@ =~= Seq::<char>::empty());
    }
    Ok(("", out))
}


/// Reads up to the next `<`, `>`, `)` or `,`, which it leaves unread; gives
/// the text before it and the delimiter.
pub fn till_next_bracket_or_comma(i: &str) -> (r: ParserResult<(String, String)>)
    ensures
        match first_in(i@, seq!['<', '>', ')', ',']) {
            Some(n) => r matches Ok((rest, (text, delim))) && rest@ == i@.skip(n as int) && text@
                == i@.take(n as int) && delim@ == seq![i@[n as int]],
            None => r is Err,
        },
{
    let s = to_chars(i);
    let mut stops: Vec<char> = Vec::new();
    stops.push('<');
    stops.push('>');
    stops.push(')');
    stops.push(',');
    assert(stops@ =~= seq!['<', '>', ')', ',']);
    assert(s@.skip(0) =~= s@);
    match first_in_from(&s, 0, &stops) {
        Some(n) => {
            let mut text = String::new();
            push_range(&mut text, &s, 0, n);
            let mut delim = String::new();
            push_char(&mut delim, s[n]);
            assert(s@.subrange(0, n as int) =~= s@.take(n as int));
            assert(delim@ =~= seq![i@[n as int]]);
            Ok((suffix(i, n), (text, delim)))
        },
        None => Err(ParseError::Mismatch),
    }
}

/// The length of the type argument at the start of `s`, inside `depth`
/// angle brackets that it opened: up to the first `,`, `)` or `>` outside
/// them. `None` where the text ends first, or where a `)` comes inside
/// angle brackets.
pub open spec fn type_arg_len(s: Seq<char>, depth: nat) -> Option<nat>
    decreases s.len(),
{
    if s.len() == 0 {
        None
    } else if (s[0] == ',' || s[0] == ')' || s[0] == '>') && depth == 0 {
        Some(0)
    } else if s[0] == ')' {
        None
    } else {
        let d: nat = if s[0] == '<' {
            depth + 1
        } else if s[0] == '>' {
            (depth - 1) as nat
        } else {
            depth
        };
        match type_arg_len(s.skip(1), d) {
            Some(n) => Some(n + 1),
            None => None,
        }
    }
}

/// Reads one type argument: up to the first `,`, `)` or `>` that is not
/// inside angle brackets opened in the argument, which it leaves unread.
pub fn type_argument1(i: &str) -> (r: ParserResult<String>)
    ensures
        match type_arg_len(i@, 0) {
            Some(n) => parsed(r, i@.skip(n as int), i@.take(n as int)),
            None => r is Err,
        },
{
    let s = to_chars(i);
    let mut k: usize = 0;
    let mut depth: usize = 0;
    assert(s@.skip(0) =~= s@);
    while k < s.len()
        invariant
            k <= s.len(),
            depth <= k,
            s@ == i@,
            type_arg_len(i@, 0) == match type_arg_len(s@.skip(k as int), depth as nat) {
                Some(n) => Some((n + k) as nat),
                None => None::<nat>,
            },
        decreases s.len() - k,
    {
        let c = s[k];
        if (c == ',' || c == ')' || c == '>') && depth == 0 {
            let mut out = String::new();
            push_range(&mut out, &s, 0, k);
            assert(s@.subrange(0, k as int) =~= s@.take(k as int));
            return Ok((suffix(i, k), out));
        }
        if c == ')' {
            return Err(ParseError::Mismatch);
        }
        assert(s@.skip(k as int).skip(1) =~= s@.skip(k + 1));
        if c == '<' {
            depth = depth + 1;
        } else if c == '>' {
            depth = depth - 1;
        }
        k = k + 1;
    }
    Err(ParseError::Mismatch)
}


/// Reads the whole input and gives it.
pub fn rest_of_script(i: &str) -> (r: ParserResult<String>)
    ensures
        parsed(r, Seq::empty(), i@),
{
    let mut out = String::new();
    out.append(i);
    proof {
        reveal_strlit("");
        assert(""@ =~= Seq::<char>::empty());
    }
    Ok(("", out))
}

/// The names after the first one in a list of names, each after `,` with
/// blanks around it.
pub open spec fn more_names(s: Seq<char>) -> (nat, Seq<Seq<char>>)
    decreases s.len(),
{
    let a = lead_len(s, CharClass::Space);
    if a < s.len() && s[a as int] == ',' {
        let k = a + 1 + lead_len(s.skip(a + 1int), CharClass::Space);
        let l = lead_len(s.skip(k as int), CharClass::IdentNum);
        if l > 0 && k + l <= s.len() {
            let (m, more) = more_names(s.skip(k + l as int));
            (k + l + m, seq![s.subrange(k as int, k + l as int)] + more)
        } else {
            (0, Seq::empty())
        }
    } else {
        (0, Seq::empty())
    }
}

/// A list of names (runs of identifier characters and dots) `(a, b, ...)`
/// at the start of `s`: how many characters it takes and the names.
pub open spec fn name_args(s: Seq<char>) -> Option<(nat, Seq<Seq<char>>)> {
    if s.len() > 0 && s[0] == '(' {
        let l = lead_len(s.skip(1), CharClass::IdentNum);
        let (n, names) = if l > 0 {
            let (m, more) = more_names(s.skip(1 + l as int));
            (l + m, seq![s.subrange(1, 1 + l as int)] + more)
        } else {
            (0nat, Seq::empty())
        };
        if 1 + n < s.len() && s[1 + n as int] == ')' {
            Some((n + 2, names))
        } else {
            None
        }
    } else {
        None
    }
}

/// The list of names `(a, b, ...)` whose `(` is at `pos`: where it ends and
/// the names.
pub fn name_args_at(s: &Vec<char>, pos: usize) -> (r: Option<(usize, Vec<String>)>)
    requires
        pos <= s.len(),
    ensures
        match name_args(s@.skip(pos as int)) {
            Some((n, names)) => r matches Some((e, out)) && e == pos + n && e <= s.len() && views(
                out@,
            ) == names,
            None => r is None,
        },
{
    let ghost t = s@.skip(pos as int);
    if pos == s.len() || s[pos] != '(' {
        return None;
    }
    assert(t.skip(1) =~= s@.skip(pos + 1));
    let mut out: Vec<String> = Vec::new();
    let ghost mut got: Seq<Seq<char>> = Seq::empty();
    let e1 = class_end(s, pos + 1, CharClass::IdentNum);
    let mut k = pos + 1;
    if e1 > pos + 1 {
        let mut first = String::new();
        push_range(&mut first, s, pos + 1, e1);
        out.push(first);
        let ghost v1 = s@.subrange(pos + 1, e1 as int);
        proof {
            got = seq![v1];
        }
        assert(t.skip(1 + (e1 - pos - 1)) =~= s@.skip(e1 as int));
        assert(t.subrange(1, 1 + (e1 - pos - 1)) =~= v1);
        k = e1;
        loop
            invariant
                e1 <= k <= s.len(),
                views(out@) == got,
                more_names(s@.skip(e1 as int)).0 == (k - e1) + more_names(s@.skip(k as int)).0,
                seq![v1] + more_names(s@.skip(e1 as int)).1 == got + more_names(s@.skip(k as int)).1,
            ensures
                e1 <= k <= s.len(),
                views(out@) == got,
                more_names(s@.skip(e1 as int)).0 == k - e1,
                seq![v1] + more_names(s@.skip(e1 as int)).1 == got,
            decreases s.len() - k,
        {
            let ghost u = s@.skip(k as int);
            let a = class_end(s, k, CharClass::Space);
            if !(a < s.len() && s[a] == ',') {
                assert(a < s.len() ==> u[(a - k) as int] == s@[a as int]);
                assert(got + Seq::<Seq<char>>::empty() =~= got);
                break;
            }
            assert(u[(a - k) as int] == s@[a as int]);
            assert(u.skip((a - k) + 1) =~= s@.skip(a + 1));
            let b = class_end(s, a + 1, CharClass::Space);
            assert(u.skip((b - k) as int) =~= s@.skip(b as int));
            let c = class_end(s, b, CharClass::IdentNum);
            if c == b {
                assert(got + Seq::<Seq<char>>::empty() =~= got);
                break;
            }
            assert(u.skip((b - k) + (c - b)) =~= s@.skip(c as int));
            assert(u.subrange((b - k) as int, (b - k) + (c - b)) =~= s@.subrange(b as int, c as int));
            let mut item = String::new();
            push_range(&mut item, s, b, c);
            out.push(item);
            proof {
                let ghost w = s@.subrange(b as int, c as int);
                assert(views(out@) =~= got.push(w));
                assert(got.push(w) + more_names(s@.skip(c as int)).1 =~= got + (seq![w] + more_names(
                    s@.skip(c as int),
                ).1));
                got = got.push(w);
            }
            k = c;
        }
    } else {
        assert(views(out@) =~= got);
    }
    if k < s.len() && s[k] == ')' {
        assert(t[(k - pos) as int] == s@[k as int]);
        Some((k + 1, out))
    } else {
        assert(k < s.len() ==> t[(k - pos) as int] == s@[k as int]);
        None
    }
}

/// Reads a list of names `(a, b, ...)`, each a run of identifier characters
/// and dots, and gives the names.
pub fn function_call_args(i: &str) -> (r: ParserResult<Vec<String>>)
    ensures
        match name_args(i@) {
            Some((n, names)) => r matches Ok((rest, out)) && rest@ == i@.skip(n as int) && views(
                out@,
            ) == names,
            None => r is Err,
        },
{
    let s = to_chars(i);
    assert(s@.skip(0) =~= s@);
    match name_args_at(&s, 0) {
        Some((e, out)) => Ok((suffix(i, e), out)),
        None => Err(ParseError::Mismatch),
    }
}

/// `s`, read from inside a run of text, with each run of identifier
/// characters and `#` that equals `v` written as `num`; where `v` is empty,
/// `num` is put at the end when the text does not end with a replaced run.
pub open spec fn replaced_word(s: Seq<char>, v: Seq<char>, num: Seq<char>) -> Seq<char>
    decreases s.len(),
{
    let l = lead_len(s, CharClass::IdentHash);
    if l > 0 && l <= s.len() && s.take(l as int) == v {
        num + if s.len() == l {
            Seq::empty()
        } else {
            replaced_word(s.skip(l as int), v, num)
        }
    } else if s.len() == 0 {
        if v.len() == 0 {
            num
        } else {
            Seq::empty()
        }
    } else {
        seq![s[0]] + replaced_word(s.skip(1), v, num)
    }
}

/// `s` with each run of identifier characters and `#` that equals `v`
/// written as `num` (see `replaced_word`).
pub open spec fn replaced_words(s: Seq<char>, v: Seq<char>, num: Seq<char>) -> Seq<char> {
    if s.len() == 0 {
        Seq::empty()
    } else {
        replaced_word(s, v, num)
    }
}

/// Replaces each run of identifier characters and `#` that equals `v` by
/// `num`; it reads the whole input.
pub fn search_and_replace(i: &str, v: String, num: String) -> (r: ParserResult<String>)
    ensures
        parsed(r, Seq::empty(), replaced_words(i@, v@, num@)),
{
    let s = to_chars(i);
    let vs = to_chars(v.as_str());
    let mut out = String::new();
    proof {
        reveal_strlit("");
        assert(""@ =~= Seq::<char>::empty());
    }
    if s.len() == 0 {
        return Ok(("", out));
    }
    let mut k: usize = 0;
    assert(s@.skip(0) =~= s@);
    loop
        invariant_except_break
            replaced_words(i@, v@, num@) == out@ + replaced_word(s@.skip(k as int), v@, num@),
        invariant
            k < s.len(),
            s@ == i@,
            vs@ == v@,
        ensures
            replaced_words(i@, v@, num@) == out@,
        decreases s.len() - k,
    {
        let ghost t = s@.skip(k as int);
        let e = class_end(&s, k, CharClass::IdentHash);
        proof {
            lemma_lead_len(t, CharClass::IdentHash);
        }
        if e > k && e - k == vs.len() && crate::text::starts_with_at(&s, k, &vs) {
            assert(t.take((e - k) as int) =~= s@.skip(k as int).take(vs.len() as int));
            out.append(num.as_str());
            if e == s.len() {
                assert(out@ + Seq::<char>::empty() =~= out@);
                break;
            }
            assert(t.skip((e - k) as int) =~= s@.skip(e as int));
            k = e;
        } else {
            proof {
                if e > k && t.take((e - k) as int) == v@ {
                    assert(s@.skip(k as int).take(vs.len() as int) =~= t.take((e - k) as int));
                }
            }
            push_char(&mut out, s[k]);
            assert(t[0] == s@[k as int]);
            if k + 1 == s.len() {
                assert(t.skip(1).len() == 0);
                assert(replaced_word(t, v@, num@) == seq![t[0]] + replaced_word(t.skip(1), v@, num@));
                assert(replaced_word(t.skip(1), v@, num@) == if v@.len() == 0 {
                    num@
                } else {
                    Seq::<char>::empty()
                });
                let ghost o1 = out@;
                if vs.len() == 0 {
                    out.append(num.as_str());
                } else {
                    assert(o1 + Seq::<char>::empty() =~= o1);
                }
                break;
            }
            assert(t.skip(1) =~= s@.skip(k + 1));
            k = k + 1;
        }
    }
    Ok(("", out))
}


/// Whether reading a block from `pos`, inside `scope` open braces, meets
/// `body_ok`.
pub fn body_ok_exec(s: &Vec<char>, pos: usize, scope: u32) -> (b: bool)
    requires
        pos <= s.len(),
    ensures
        b == body_ok(s@.skip(pos as int), scope as nat),
{
    let braces = brace_chars();
    let mut k = pos;
    let mut depth = scope;
    loop
        invariant
            pos <= k <= s.len(),
            braces@ == seq!['{', '}'],
            body_ok(s@.skip(pos as int), scope as nat) == body_ok(s@.skip(k as int), depth as nat),
        decreases s.len() - k,
    {
        match first_in_from(s, k, &braces) {
            Some(n) => {
                let ghost t = s@.skip(k as int);
                assert(t[(n - k) as int] == s@[n as int]);
                assert(t.skip((n - k) + 1) =~= s@.skip(n + 1));
                if s[n] == '{' {
                    if depth == u32::MAX {
                        return false;
                    }
                    depth = depth + 1;
                } else {
                    if depth == 0 {
                        return false;
                    }
                    if depth == 1 {
                        return true;
                    }
                    depth = depth - 1;
                }
                k = n + 1;
            },
            None => {
                return true;
            },
        }
    }
}


/// Succeeds, reading nothing, at the end of the input; fails elsewhere.
pub fn eoi(i: &str) -> (r: ParserResult<()>)
    ensures
        i@.len() == 0 ==> (r matches Ok((rest, _)) && rest@ == i@),
        i@.len() > 0 ==> r is Err,
{
    if i.unicode_len() == 0 {
        Ok((i, ()))
    } else {
        Err(ParseError::Mismatch)
    }
}

/// The length of a line ending at the start of `s`: 0 at the end of the
/// input, 1 for `\n`, 2 for `\r\n`; `None` elsewhere.
pub open spec fn eol_len(s: Seq<char>) -> Option<nat> {
    if s.len() == 0 {
        Some(0)
    } else if s[0] == '\n' {
        Some(1)
    } else if s.len() > 1 && s[0] == '\r' && s[1] == '\n' {
        Some(2)
    } else {
        None
    }
}

fn eol_at(s: &Vec<char>, pos: usize) -> (r: Option<usize>)
    requires
        pos <= s.len(),
    ensures
        match eol_len(s@.skip(pos as int)) {
            Some(n) => r == Some((pos + n) as usize) && pos + n <= s.len(),
            None => r is None,
        },
{
    let ghost t = s@.skip(pos as int);
    if pos == s.len() {
        return Some(pos);
    }
    assert(t[0] == s@[pos as int]);
    if s[pos] == '\n' {
        return Some(pos + 1);
    }
    if pos + 1 < s.len() && s[pos] == '\r' && s[pos + 1] == '\n' {
        assert(t[1] == s@[pos + 1]);
        return Some(pos + 2);
    }
    assert(pos + 1 < s.len() ==> t[1] == s@[pos + 1]);
    None
}

/// Reads the end of the input, a `\n` or a `\r\n`.
pub fn eol(i: &str) -> (r: ParserResult<()>)
    ensures
        match eol_len(i@) {
            Some(n) => r matches Ok((rest, _)) && rest@ == i@.skip(n as int),
            None => r is Err,
        },
{
    let s = to_chars(i);
    assert(s@.skip(0) =~= s@);
    match eol_at(&s, 0) {
        Some(e) => Ok((suffix(i, e), ())),
        None => Err(ParseError::Mismatch),
    }
}

/// How many characters make up the line at the start of `s`, its line
/// ending included, where a `\` before a line feed continues the line.
pub open spec fn till_eol_len(s: Seq<char>) -> nat
    decreases s.len(),
{
    match eol_len(s) {
        Some(n) => n,
        None => if s.len() > 1 && s[0] == '\\' && s[1] == '\n' {
            2 + till_eol_len(s.skip(2))
        } else {
            1 + till_eol_len(s.skip(1))
        },
    }
}

/// The text of a line as `str_till_eol` gives it: without a final `\n`.
pub open spec fn without_final_newline(t: Seq<char>) -> Seq<char> {
    if t.len() > 0 && t.last() == '\n' {
        t.drop_last()
    } else {
        t
    }
}

/// Reads up to and with the end of the line, where a `\` before a line feed
/// continues the line; gives what it read without a final `\n`.
pub fn str_till_eol(i: &str) -> (r: ParserResult<String>)
    ensures
        till_eol_len(i@) <= i@.len(),
        parsed(
            r,
            i@.skip(till_eol_len(i@) as int),
            without_final_newline(i@.take(till_eol_len(i@) as int)),
        ),
{
    let s = to_chars(i);
    let mut k: usize = 0;
    assert(s@.skip(0) =~= s@);
    let mut end: usize = 0;
    loop
        invariant
            k <= s.len(),
            s@ == i@,
            till_eol_len(i@) == k + till_eol_len(s@.skip(k as int)),
        ensures
            end <= s.len(),
            till_eol_len(i@) == end,
        decreases s.len() - k,
    {
        let ghost t = s@.skip(k as int);
        if let Some(e) = eol_at(&s, k) {
            end = e;
            break;
        }
        assert(t[0] == s@[k as int]);
        if k + 1 < s.len() && s[k] == '\\' && s[k + 1] == '\n' {
            assert(t[1] == s@[k + 1]);
            assert(t.skip(2) =~= s@.skip(k + 2));
            k = k + 2;
        } else {
            assert(k + 1 < s.len() ==> t[1] == s@[k + 1]);
            assert(t.skip(1) =~= s@.skip(k + 1));
            k = k + 1;
        }
    }
    let mut out = String::new();
    if end > 0 && s[end - 1] == '\n' {
        push_range(&mut out, &s, 0, end - 1);
        assert(s@.subrange(0, end - 1) =~= s@.take(end as int).drop_last());
    } else {
        push_range(&mut out, &s, 0, end);
        assert(s@.subrange(0, end as int) =~= s@.take(end as int));
    }
    Ok((suffix(i, end), out))
}


/// Gives a copy of `t`, reading nothing; a fallback for a choice between
/// parsers.
pub fn cnst<'a, T: Clone>(t: &T, i: &'a str) -> (r: Result<(&'a str, T), ParseError>)
    ensures
        r matches Ok((rest, v)) && rest == i && cloned(*t, v),
{
    Ok((i, t.clone()))
}


/// How many characters of blanks at the start of `s` `blank_space` reads:
/// runs of spaces, tabs, carriage returns and line feeds, and `\` followed
/// by a line feed.
pub open spec fn blank_run(s: Seq<char>) -> nat
    decreases s.len(),
{
    let l = lead_len(s, CharClass::Space);
    if l > 0 && l <= s.len() {
        l + blank_run(s.skip(l as int))
    } else if s.len() > 1 && s[0] == '\\' && s[1] == '\n' {
        2 + blank_run(s.skip(2))
    } else {
        0
    }
}

/// Reads blanks (see `blank_run`) and gives them.
pub fn blank_space(i: &str) -> (r: ParserResult<String>)
    ensures
        blank_run(i@) <= i@.len(),
        parsed(r, i@.skip(blank_run(i@) as int), i@.take(blank_run(i@) as int)),
{
    let s = to_chars(i);
    let mut k: usize = 0;
    assert(s@.skip(0) =~= s@);
    loop
        invariant
            k <= s.len(),
            s@ == i@,
            blank_run(i@) == k + blank_run(s@.skip(k as int)),
        ensures
            k <= s.len(),
            blank_run(i@) == k,
        decreases s.len() - k,
    {
        let ghost t = s@.skip(k as int);
        let e = class_end(&s, k, CharClass::Space);
        if e > k {
            assert(t.skip((e - k) as int) =~= s@.skip(e as int));
            k = e;
        } else if k < s.len() && k + 1 < s.len() && s[k] == '\\' && s[k + 1] == '\n' {
            assert(t[0] == s@[k as int] && t[1] == s@[k + 1]);
            assert(t.skip(2) =~= s@.skip(k + 2));
            k = k + 2;
        } else {
            assert(k + 1 < s.len() ==> t[0] == s@[k as int] && t[1] == s@[k + 1]);
            break;
        }
    }
    let mut out = String::new();
    push_range(&mut out, &s, 0, k);
    assert(s@.subrange(0, k as int) =~= s@.take(k as int));
    Ok((suffix(i, k), out))
}

/// Fails on every input: its loop over a reader that may read nothing stops
/// with an error as soon as that reader reads nothing.
pub fn blank_space2(i: &str) -> (r: ParserResult<String>)
    ensures
        r is Err,
{
    Err(ParseError::Mismatch)
}


/// The characters of a call as `anychar_func` reads them: alphanumeric
/// characters, `_`, `(`, `)`, `,` and spaces.
pub open spec fn is_func_char(c: char) -> bool {
    is_alphanumeric_char(c) || c == '_' || c == '(' || c == ' ' || c == ')' || c == ','
}

/// How many characters at the start of `s` are `is_func_char`.
pub open spec fn func_len(s: Seq<char>) -> nat
    decreases s.len(),
{
    if s.len() > 0 && is_func_char(s[0]) {
        1 + func_len(s.skip(1))
    } else {
        0
    }
}

fn func_pred(ch: char) -> (r: bool)
    ensures
        r == is_func_char(ch),
{
    is_alphanumeric(ch) || ch == '_' || ch == '(' || ch == ' ' || ch == ')' || ch == ','
}

/// Reads a non-empty run of alphanumeric characters, `_`, `(`, `)`, `,`
/// and spaces.
pub fn anychar_func(i: &str) -> (r: ParserResult<String>)
    ensures
        func_len(i@) == 0 ==> r is Err,
        func_len(i@) > 0 ==> func_len(i@) <= i@.len() && parsed(
            r,
            i@.skip(func_len(i@) as int),
            i@.take(func_len(i@) as int),
        ),
{
    let s = to_chars(i);
    let mut k: usize = 0;
    assert(s@.skip(0) =~= s@);
    while k < s.len() && func_pred(s[k])
        invariant
            k <= s.len(),
            s@ == i@,
            func_len(i@) == k + func_len(s@.skip(k as int)),
        decreases s.len() - k,
    {
        assert(s@.skip(k as int).skip(1) =~= s@.skip(k + 1));
        k = k + 1;
    }
    if k == 0 {
        return Err(ParseError::Mismatch);
    }
    let mut out = String::new();
    push_range(&mut out, &s, 0, k);
    assert(s@.subrange(0, k as int) =~= s@.take(k as int));
    Ok((suffix(i, k), out))
}

} // verus!
