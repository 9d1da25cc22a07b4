//! Replaces the names defined by `#define NAME value` lines by their
//! values, and takes the `#define` lines out.

use vstd::prelude::*;
use crate::nom_helpers::{class_end, is_ascii_word, lead_len, parsed, CharClass, ParseError, ParserResult};
use crate::text::{find_first, find_from, push_range, starts_with_at, suffix, to_chars};

verus! {

/// A `#define` line: the name it defines and the text it stands for.
pub struct HashDefine {
    pub name: String,
    pub replace_by: String,
}

/// `NAME value` and a line feed at the start of `s` (at least one blank
/// between the name and the value): how many characters it takes, the name
/// and the value.
pub open spec fn define_body(s: Seq<char>) -> Option<(nat, Seq<char>, Seq<char>)> {
    let l = lead_len(s, CharClass::IdentNum);
    let b = lead_len(s.skip(l as int), CharClass::Blank);
    if l > 0 && b > 0 {
        match find_first(s.skip(l + b as int), "\n"@) {
            Some(n) => Some((l + b + n + 1, s.take(l as int), s.subrange(l + b as int, l + b + n as int))),
            None => None,
        }
    } else {
        None
    }
}

/// The first `#define` of `s`, which must be followed by blanks and a
/// `define_body`: where its line ends, the name and the value.
pub open spec fn define_tag(s: Seq<char>) -> Option<(nat, Seq<char>, Seq<char>)> {
    match find_first(s, "#define"@) {
        Some(p) => {
            let c = lead_len(s.skip(p + 7int), CharClass::Blank);
            if c > 0 {
                match define_body(s.skip(p + 7 + c as int)) {
                    Some((n, name, rb)) => Some((p + 7 + c + n, name, rb)),
                    None => None,
                }
            } else {
                None
            }
        },
        None => None,
    }
}

/// The definitions of `s`, read one after the other up to the first
/// `#define` that is not followed by a name, a blank, a value and a line
/// feed.
pub open spec fn all_defines(s: Seq<char>) -> Seq<(Seq<char>, Seq<char>)>
    decreases s.len(),
{
    match define_tag(s) {
        Some((n, name, rb)) => if 0 < n <= s.len() {
            seq![(name, rb)] + all_defines(s.skip(n as int))
        } else {
            Seq::empty()
        },
        None => Seq::empty(),
    }
}

/// The text before the first `#define ` line of `s` that ends with a line
/// feed, and where that line ends.
pub open spec fn erase_step(s: Seq<char>) -> Option<(nat, Seq<char>)> {
    match find_first(s, "#define "@) {
        Some(p) => match find_first(s.skip(p + 8int), "\n"@) {
            Some(n) => Some((p + 8 + n + 1, s.take(p as int))),
            None => None,
        },
        None => None,
    }
}

/// `s` without its `#define ` lines.
pub open spec fn erased_defines(s: Seq<char>) -> Seq<char>
    decreases s.len(),
{
    if s.len() == 0 {
        s
    } else {
        match erase_step(s) {
            Some((n, o)) => if 0 < n <= s.len() {
                o + erased_defines(s.skip(n as int))
            } else {
                s
            },
            None => s,
        }
    }
}

/// A use of `name` at the start of `s`: a character that cannot be part of
/// an identifier, then `name` as a whole run of identifier characters and
/// dots. Where the use ends.
pub open spec fn define_use_at(s: Seq<char>, name: Seq<char>) -> Option<nat> {
    if s.len() > 0 && !is_ascii_word(s[0]) {
        let l = lead_len(s.skip(1), CharClass::IdentNum);
        if l > 0 && s.subrange(1, 1 + l as int) == name {
            Some(1 + l)
        } else {
            None
        }
    } else {
        None
    }
}

/// The first use of `name` in `s`: where it starts and where it ends.
pub open spec fn find_define_use(s: Seq<char>, name: Seq<char>) -> Option<(nat, nat)>
    decreases s.len(),
{
    match define_use_at(s, name) {
        Some(e) => Some((0nat, e)),
        None => if s.len() == 0 {
            None
        } else {
            match find_define_use(s.skip(1), name) {
                Some((p, e)) => Some((p + 1, e + 1)),
                None => None,
            }
        },
    }
}

/// `s` with each use of `name` replaced by `rb`, the character before it
/// kept.
pub open spec fn replaced_define(s: Seq<char>, name: Seq<char>, rb: Seq<char>) -> Seq<char>
    decreases s.len(),
{
    match find_define_use(s, name) {
        Some((p, e)) => if p < e <= s.len() {
            s.take(p + 1int) + rb + replaced_define(s.skip(e as int), name, rb)
        } else {
            s
        },
        None => s,
    }
}

/// `s` with the definitions applied in order.
pub open spec fn apply_defines(s: Seq<char>, defs: Seq<(Seq<char>, Seq<char>)>) -> Seq<char>
    decreases defs.len(),
{
    if defs.len() == 0 {
        s
    } else {
        apply_defines(replaced_define(s, defs[0].0, defs[0].1), defs.drop_first())
    }
}

/// `s` without its `#define` lines and with its definitions applied.
pub open spec fn defined(s: Seq<char>) -> Seq<char> {
    apply_defines(erased_defines(s), all_defines(s))
}

/// The pairs (name, value) of a list of definitions.
pub open spec fn define_pairs(v: Seq<HashDefine>) -> Seq<(Seq<char>, Seq<char>)> {
    Seq::new(v.len(), |j: int| (v[j].name@, v[j].replace_by@))
}

proof fn lemma_define_literals()
    ensures
        "#define"@.len() == 7,
        "#define "@.len() == 8,
        "\n"@ == seq!['\n'],
{
    reveal_strlit("#define");
    reveal_strlit("#define ");
    reveal_strlit("\n");
}

fn define_body_pos(s: &Vec<char>, pos: usize, nl: &Vec<char>) -> (r: Option<(usize, usize, usize, usize)>)
    requires
        pos <= s.len(),
        nl@ == "\n"@,
    ensures
        match define_body(s@.skip(pos as int)) {
            Some((n, name, rb)) => r matches Some((e, ne, vs, ve)) && e == pos + n && pos < ne <= vs
                <= ve < e <= s.len() && name == s@.subrange(pos as int, ne as int) && rb
                == s@.subrange(vs as int, ve as int),
            None => r is None,
        },
{
    proof {
        lemma_define_literals();
    }
    let ghost t = s@.skip(pos as int);
    let l = class_end(s, pos, CharClass::IdentNum);
    assert(t.skip((l - pos) as int) =~= s@.skip(l as int));
    let b = class_end(s, l, CharClass::Blank);
    if l == pos || b == l {
        return None;
    }
    assert(t.skip((l - pos) + (b - l)) =~= s@.skip(b as int));
    match find_from(s, b, nl) {
        Some(n) => {
            assert(t.take((l - pos) as int) =~= s@.subrange(pos as int, l as int));
            assert(t.subrange((l - pos) + (b - l), (l - pos) + (b - l) + (n - b)) =~= s@.subrange(
                b as int,
                n as int,
            ));
            Some((n + 1, l, b, n))
        },
        None => None,
    }
}

fn define_tag_pos(s: &Vec<char>, pos: usize, kw: &Vec<char>, nl: &Vec<char>) -> (r: Option<
    (usize, usize, usize, usize, usize),
>)
    requires
        pos <= s.len(),
        kw@ == "#define"@,
        nl@ == "\n"@,
    ensures
        match define_tag(s@.skip(pos as int)) {
            Some((n, name, rb)) => r matches Some((e, ns, ne, vs, ve)) && e == pos + n && ns <= ne
                <= vs <= ve <= e <= s.len() && name == s@.subrange(ns as int, ne as int) && rb
                == s@.subrange(vs as int, ve as int),
            None => r is None,
        },
{
    proof {
        lemma_define_literals();
    }
    let ghost t = s@.skip(pos as int);
    match find_from(s, pos, kw) {
        Some(p) => {
            assert(t.skip((p - pos) + 7) =~= s@.skip(p + 7));
            let c = class_end(s, p + 7, CharClass::Blank);
            if c == p + 7 {
                return None;
            }
            assert(t.skip((p - pos) + 7 + (c - p - 7)) =~= s@.skip(c as int));
            match define_body_pos(s, c, nl) {
                Some((e, ne, vs, ve)) => Some((e, c, ne, vs, ve)),
                None => None,
            }
        },
        None => None,
    }
}

/// Reads `NAME value` and a line feed (at least one blank between the name
/// and the value) and gives the definition.
pub fn get_one_define(i: &str) -> (r: ParserResult<HashDefine>)
    ensures
        match define_body(i@) {
            Some((n, name, rb)) => r matches Ok((rest, d)) && rest@ == i@.skip(n as int) && d.name@
                == name && d.replace_by@ == rb,
            None => r is Err,
        },
{
    let s = to_chars(i);
    let nl = to_chars("\n");
    assert(s@.skip(0) =~= s@);
    match define_body_pos(&s, 0, &nl) {
        Some((e, ne, vs, ve)) => {
            let mut name = String::new();
            push_range(&mut name, &s, 0, ne);
            let mut replace_by = String::new();
            push_range(&mut replace_by, &s, vs, ve);
            Ok((suffix(i, e), HashDefine { name, replace_by }))
        },
        None => Err(ParseError::Mismatch),
    }
}

/// Reads up to the end of the line of the first `#define`, which must be
/// followed by blanks, a name, blanks, a value and a line feed; gives the
/// definition.
pub fn find_define_tag(i: &str) -> (r: ParserResult<HashDefine>)
    ensures
        match define_tag(i@) {
            Some((n, name, rb)) => r matches Ok((rest, d)) && rest@ == i@.skip(n as int) && d.name@
                == name && d.replace_by@ == rb,
            None => r is Err,
        },
{
    let s = to_chars(i);
    let kw = to_chars("#define");
    let nl = to_chars("\n");
    assert(s@.skip(0) =~= s@);
    match define_tag_pos(&s, 0, &kw, &nl) {
        Some((e, ns, ne, vs, ve)) => {
            let mut name = String::new();
            push_range(&mut name, &s, ns, ne);
            let mut replace_by = String::new();
            push_range(&mut replace_by, &s, vs, ve);
            Ok((suffix(i, e), HashDefine { name, replace_by }))
        },
        None => Err(ParseError::Mismatch),
    }
}


fn erase_step_pos(s: &Vec<char>, pos: usize, kw: &Vec<char>, nl: &Vec<char>) -> (r: Option<(usize, usize)>)
    requires
        pos <= s.len(),
        kw@ == "#define "@,
        nl@ == "\n"@,
    ensures
        match erase_step(s@.skip(pos as int)) {
            Some((n, o)) => r matches Some((e, p)) && e == pos + n && pos <= p < e <= s.len() && o
                == s@.subrange(pos as int, p as int),
            None => r is None,
        },
{
    proof {
        lemma_define_literals();
    }
    let ghost t = s@.skip(pos as int);
    match find_from(s, pos, kw) {
        Some(p) => {
            assert(t.skip((p - pos) + 8) =~= s@.skip(p + 8));
            match find_from(s, p + 8, nl) {
                Some(n) => {
                    assert(t.take((p - pos) as int) =~= s@.subrange(pos as int, p as int));
                    Some((n + 1, p))
                },
                None => None,
            }
        },
        None => None,
    }
}

/// Reads up to the end of the first `#define ` line that ends with a line
/// feed, and gives the text before that line.
pub fn erase_one_define(i: &str) -> (r: ParserResult<String>)
    ensures
        match erase_step(i@) {
            Some((n, o)) => parsed(r, i@.skip(n as int), o),
            None => r is Err,
        },
{
    let s = to_chars(i);
    let kw = to_chars("#define ");
    let nl = to_chars("\n");
    assert(s@.skip(0) =~= s@);
    match erase_step_pos(&s, 0, &kw, &nl) {
        Some((e, p)) => {
            let mut out = String::new();
            push_range(&mut out, &s, 0, p);
            Ok((suffix(i, e), out))
        },
        None => Err(ParseError::Mismatch),
    }
}

/// Takes the `#define ` lines out of the text; it reads the whole input.
#[verifier::rlimit(40)]
pub fn erase_all_defines(i: &str) -> (r: ParserResult<String>)
    ensures
        parsed(r, Seq::empty(), erased_defines(i@)),
{
    let s = to_chars(i);
    let kw = to_chars("#define ");
    let nl = to_chars("\n");
    let mut out = String::new();
    let mut k: usize = 0;
    assert(s@.skip(0) =~= s@);
    loop
        invariant
            k <= s.len(),
            s@ == i@,
            kw@ == "#define "@,
            nl@ == "\n"@,
            erased_defines(i@) == out@ + erased_defines(s@.skip(k as int)),
        ensures
            k <= s.len(),
            erased_defines(i@) == out@ + s@.skip(k as int),
        decreases s.len() - k,
    {
        let ghost t = s@.skip(k as int);
        if k == s.len() {
            assert(erased_defines(t) == t);
            break;
        }
        match erase_step_pos(&s, k, &kw, &nl) {
            Some((e, p)) => {
                push_range(&mut out, &s, k, p);
                proof {
                    assert(erased_defines(t) == t.subrange(0, (p - k) as int) + erased_defines(
                        t.skip((e - k) as int),
                    ));
                    assert(t.subrange(0, (p - k) as int) =~= s@.subrange(k as int, p as int));
                    assert(t.skip((e - k) as int) =~= s@.skip(e as int));
                }
                k = e;
            },
            None => {
                assert(erased_defines(t) == t);
                break;
            },
        }
    }
    push_range(&mut out, &s, k, s.len());
    assert(s@.subrange(k as int, s.len() as int) =~= s@.skip(k as int));
    proof {
        reveal_strlit("");
        assert(""@ =~= Seq::<char>::empty());
    }
    Ok(("", out))
}

fn define_use_pos(s: &Vec<char>, pos: usize, name: &Vec<char>) -> (r: Option<usize>)
    requires
        pos <= s.len(),
    ensures
        match define_use_at(s@.skip(pos as int), name@) {
            Some(e) => r == Some((pos + e) as usize) && pos + e <= s.len(),
            None => r is None,
        },
{
    let ghost t = s@.skip(pos as int);
    if pos == s.len() || crate::nom_helpers::class_has(CharClass::Word, s[pos]) {
        return None;
    }
    assert(t[0] == s@[pos as int]);
    assert(t.skip(1) =~= s@.skip(pos + 1));
    let l = class_end(s, pos + 1, CharClass::IdentNum);
    if l > pos + 1 && l - pos - 1 == name.len() && starts_with_at(s, pos + 1, name) {
        assert(t.subrange(1, 1 + (l - pos - 1)) =~= s@.skip(pos + 1).take(name.len() as int));
        Some(l)
    } else {
        proof {
            if l > pos + 1 && t.subrange(1, 1 + (l - pos - 1)) == name@ {
                assert(t.subrange(1, 1 + (l - pos - 1)) =~= s@.skip(pos + 1).take(name.len() as int));
            }
        }
        None
    }
}

fn scan_define_use(s: &Vec<char>, from: usize, name: &Vec<char>) -> (r: Option<(usize, usize)>)
    requires
        from <= s.len(),
    ensures
        match find_define_use(s@.skip(from as int), name@) {
            Some((p, e)) => r == Some(((from + p) as usize, (from + e) as usize)) && from + p < from
                + e <= s.len(),
            None => r is None,
        },
{
    let mut k = from;
    loop
        invariant
            from <= k <= s.len(),
            find_define_use(s@.skip(from as int), name@) == match find_define_use(
                s@.skip(k as int),
                name@,
            ) {
                Some((p, e)) => Some(((p + (k - from)) as nat, (e + (k - from)) as nat)),
                None => None,
            },
        decreases s.len() - k,
    {
        if let Some(e) = define_use_pos(s, k, name) {
            return Some((k, e));
        }
        if k == s.len() {
            return None;
        }
        assert(s@.skip(k as int).skip(1) =~= s@.skip(k + 1));
        k = k + 1;
    }
}

/// Replaces each use of `name` (after a character that cannot be part of an
/// identifier, as a whole run of identifier characters and dots) by
/// `replace_by`; it reads the whole input.
#[verifier::rlimit(40)]
pub fn find_and_replace_single_define(i: &str, name: String, replace_by: String) -> (r: ParserResult<
    String,
>)
    ensures
        parsed(r, Seq::empty(), replaced_define(i@, name@, replace_by@)),
{
    let s = to_chars(i);
    let nm = to_chars(name.as_str());
    let mut out = String::new();
    let mut k: usize = 0;
    assert(s@.skip(0) =~= s@);
    loop
        invariant
            k <= s.len(),
            s@ == i@,
            nm@ == name@,
            replaced_define(i@, name@, replace_by@) == out@ + replaced_define(
                s@.skip(k as int),
                name@,
                replace_by@,
            ),
        ensures
            k <= s.len(),
            replaced_define(i@, name@, replace_by@) == out@ + s@.skip(k as int),
        decreases s.len() - k,
    {
        let ghost t = s@.skip(k as int);
        match scan_define_use(&s, k, &nm) {
            Some((p, e)) => {
                push_range(&mut out, &s, k, p + 1);
                out.append(replace_by.as_str());
                proof {
                    assert(replaced_define(t, name@, replace_by@) == t.take((p - k) + 1) + replace_by@
                        + replaced_define(t.skip((e - k) as int), name@, replace_by@));
                    assert(t.take((p - k) + 1) =~= s@.subrange(k as int, p + 1));
                    assert(t.skip((e - k) as int) =~= s@.skip(e as int));
                }
                k = e;
            },
            None => {
                assert(replaced_define(t, name@, replace_by@) == t);
                break;
            },
        }
    }
    push_range(&mut out, &s, k, s.len());
    assert(s@.subrange(k as int, s.len() as int) =~= s@.skip(k as int));
    proof {
        reveal_strlit("");
        assert(""@ =~= Seq::<char>::empty());
    }
    Ok(("", out))
}

fn collect_defines(s: &Vec<char>) -> (r: Vec<HashDefine>)
    ensures
        define_pairs(r@) == all_defines(s@),
{
    let kw = to_chars("#define");
    let nl = to_chars("\n");
    let mut defs: Vec<HashDefine> = Vec::new();
    let mut k: usize = 0;
    assert(s@.skip(0) =~= s@);
    loop
        invariant
            k <= s.len(),
            kw@ == "#define"@,
            nl@ == "\n"@,
            all_defines(s@) == define_pairs(defs@) + all_defines(s@.skip(k as int)),
        ensures
            all_defines(s@) == define_pairs(defs@),
        decreases s.len() - k,
    {
        let ghost t = s@.skip(k as int);
        match define_tag_pos(s, k, &kw, &nl) {
            Some((e, ns, ne, vs, ve)) => {
                if e == k {
                    assert(all_defines(t) =~= Seq::<(Seq<char>, Seq<char>)>::empty());
                    assert(define_pairs(defs@) + Seq::<(Seq<char>, Seq<char>)>::empty() =~= define_pairs(defs@));
                    break;
                }
                let mut name = String::new();
                push_range(&mut name, s, ns, ne);
                let mut replace_by = String::new();
                push_range(&mut replace_by, s, vs, ve);
                let ghost d0 = define_pairs(defs@);
                defs.push(HashDefine { name, replace_by });
                proof {
                    assert(t.skip((e - k) as int) =~= s@.skip(e as int));
                    let ghost pr = (s@.subrange(ns as int, ne as int), s@.subrange(vs as int, ve as int));
                    assert(all_defines(t) == seq![pr] + all_defines(s@.skip(e as int)));
                    assert(define_pairs(defs@) =~= d0.push(pr));
                    assert(d0.push(pr) + all_defines(s@.skip(e as int)) =~= d0 + (seq![pr] + all_defines(
                        s@.skip(e as int),
                    )));
                }
                k = e;
            },
            None => {
                assert(all_defines(t) =~= Seq::<(Seq<char>, Seq<char>)>::empty());
                assert(define_pairs(defs@) + Seq::<(Seq<char>, Seq<char>)>::empty() =~= define_pairs(defs@));
                break;
            },
        }
    }
    defs
}

/// Takes the `#define ` lines out of the text, then replaces the uses of
/// each name they define, in order, by its value; it reads the whole input.
pub fn definition_parser(i: &str) -> (r: ParserResult<String>)
    ensures
        parsed(r, Seq::empty(), defined(i@)),
{
    let s = to_chars(i);
    let hash_defines_info = collect_defines(&s);
    let (_, no_defines) = match erase_all_defines(i) {
        Ok(x) => x,
        Err(e) => return Err(e),
    };
    let mut new_script = no_defines;
    let ghost all = define_pairs(hash_defines_info@);
    let mut j: usize = 0;
    assert(all.skip(0) =~= all);
    while j < hash_defines_info.len()
        invariant
            j <= hash_defines_info.len(),
            all == define_pairs(hash_defines_info@),
            all == all_defines(i@),
            defined(i@) == apply_defines(new_script@, all.skip(j as int)),
        decreases hash_defines_info.len() - j,
    {
        assert(all.skip(j as int)[0] == all[j as int]);
        assert(all.skip(j as int).drop_first() =~= all.skip(j + 1));
        let name = hash_defines_info[j].name.clone();
        let replace_by = hash_defines_info[j].replace_by.clone();
        if let Ok((_, new_script2)) = find_and_replace_single_define(new_script.as_str(), name, replace_by) {
            new_script = new_script2;
        }
        j = j + 1;
    }
    assert(all.skip(j as int) =~= Seq::<(Seq<char>, Seq<char>)>::empty());
    proof {
        reveal_strlit("");
        assert(""@ =~= Seq::<char>::empty());
    }
    Ok(("", new_script))
}

/// A single definition replaces the uses of its name by its value.
pub proof fn lemma_one_define_replaces_its_name(s: Seq<char>, name: Seq<char>, value: Seq<char>)
    ensures
        apply_defines(s, seq![(name, value)]) == replaced_define(s, name, value),
{
    let defs = seq![(name, value)];
    assert(defs.drop_first() =~= Seq::<(Seq<char>, Seq<char>)>::empty());
    assert(defs[0] == (name, value));
    assert(apply_defines(s, defs) == apply_defines(replaced_define(s, name, value), defs.drop_first()));
}

/// The definitions are applied one after the other, each to the text that
/// the ones before it left: applying a list is applying its first `k`
/// definitions, then the others to the result.
pub proof fn lemma_defines_apply_in_turn(
    s: Seq<char>,
    defs: Seq<(Seq<char>, Seq<char>)>,
    k: int,
)
    requires
        0 <= k <= defs.len(),
    ensures
        apply_defines(s, defs) == apply_defines(apply_defines(s, defs.take(k)), defs.skip(k)),
    decreases k,
{
    if k == 0 {
        assert(defs.take(0) =~= Seq::<(Seq<char>, Seq<char>)>::empty());
        assert(defs.skip(0) =~= defs);
    } else {
        let s1 = replaced_define(s, defs[0].0, defs[0].1);
        let rest = defs.drop_first();
        lemma_defines_apply_in_turn(s1, rest, k - 1);
        assert(defs.take(k)[0] == defs[0]);
        assert(defs.take(k).drop_first() =~= rest.take(k - 1));
        assert(rest.skip(k - 1) =~= defs.skip(k));
    }
}

} // verus!
