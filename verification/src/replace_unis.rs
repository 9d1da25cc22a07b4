//! Finds the uniform variables of a shader (say `iResolution`) in printed
//! WGSL and reads them from the `uni` root variable (`uni.iResolution`).

use vstd::prelude::*;
use crate::nom_helpers::{ParseError, ParserResult};
use crate::text::{find_tag, first_tag, lemma_first_tag_fits, push_char, push_range, starts_with, starts_with_at, suffix, to_chars};

verus! {

/// The uniform variables, in the order in which they are tried.
pub open spec fn uniform_names() -> Seq<Seq<char>> {
    seq![
        "iResolution"@,
        "iFrame"@,
        "iTime"@,
        "iTimeDelta"@,
        "iSampleRate"@,
        "iMouse"@,
        "iChannelTime"@,
        "iChannelResolution"@,
        "iDate"@,
    ]
}

/// The uniform variable that `s` begins with, if any.
pub open spec fn uniform_at(s: Seq<char>) -> Option<Seq<char>> {
    first_tag(s, uniform_names())
}

/// `s` with `uni.` put before each uniform variable, read from left to
/// right.
pub open spec fn prefix_uniforms(s: Seq<char>) -> Seq<char>
    decreases s.len(),
{
    if s.len() == 0 {
        s
    } else if uniform_at(s) is Some && 0 < uniform_at(s)->0.len() <= s.len() {
        "uni."@ + uniform_at(s)->0 + prefix_uniforms(s.skip(uniform_at(s)->0.len() as int))
    } else {
        seq![s[0]] + prefix_uniforms(s.skip(1))
    }
}

/// Up to the first uniform variable of `s`: how many characters that takes
/// and the text with `uni.` before that variable; `None` where there is none.
pub open spec fn up_to_uniform(s: Seq<char>) -> Option<(nat, Seq<char>)>
    decreases s.len(),
{
    if s.len() == 0 {
        None
    } else if uniform_at(s) is Some && 0 < uniform_at(s)->0.len() <= s.len() {
        Some((uniform_at(s)->0.len(), "uni."@ + uniform_at(s)->0))
    } else {
        match up_to_uniform(s.skip(1)) {
            Some((n, o)) => Some((n + 1, seq![s[0]] + o)),
            None => None,
        }
    }
}

/// Up to the last uniform variable of `s`: how many characters that takes
/// and the text with `uni.` before each of them.
pub open spec fn up_to_last_uniform(s: Seq<char>) -> (nat, Seq<char>)
    decreases s.len(),
{
    match up_to_uniform(s) {
        Some((n, o)) => if 0 < n <= s.len() {
            let (n2, o2) = up_to_last_uniform(s.skip(n as int));
            (n + n2, o + o2)
        } else {
            (0, Seq::empty())
        },
        None => (0, Seq::empty()),
    }
}

proof fn lemma_uniform_names()
    ensures
        forall|k: int| 0 <= k < uniform_names().len() ==> (#[trigger] uniform_names()[k]).len() > 0,
{
    reveal_strlit("iResolution");
    reveal_strlit("iFrame");
    reveal_strlit("iTime");
    reveal_strlit("iTimeDelta");
    reveal_strlit("iSampleRate");
    reveal_strlit("iMouse");
    reveal_strlit("iChannelTime");
    reveal_strlit("iChannelResolution");
    reveal_strlit("iDate");
    assert forall|k: int| 0 <= k < uniform_names().len() implies (#[trigger] uniform_names()[k]).len() > 0 by {
        if k == 0 {} else if k == 1 {} else if k == 2 {} else if k == 3 {} else if k == 4 {}
        else if k == 5 {} else if k == 6 {} else if k == 7 {} else {}
    }
}

fn uniform_tags() -> (r: Vec<Vec<char>>)
    ensures
        r@.len() == uniform_names().len(),
        forall|k: int| 0 <= k < r@.len() ==> (#[trigger] r@[k])@ == uniform_names()[k],
        forall|k: int| 0 <= k < r@.len() ==> (#[trigger] r@[k])@.len() > 0,
{
    let mut r: Vec<Vec<char>> = Vec::new();
    r.push(to_chars("iResolution"));
    r.push(to_chars("iFrame"));
    r.push(to_chars("iTime"));
    r.push(to_chars("iTimeDelta"));
    r.push(to_chars("iSampleRate"));
    r.push(to_chars("iMouse"));
    r.push(to_chars("iChannelTime"));
    r.push(to_chars("iChannelResolution"));
    r.push(to_chars("iDate"));
    proof {
        lemma_uniform_names();
        assert forall|k: int| 0 <= k < r@.len() implies (#[trigger] r@[k])@.len() > 0 by {
            assert(r@[k]@ == uniform_names()[k]);
        }
    }
    r
}

/// `r` with `p` put in front of its text, its length counted.
pub open spec fn shifted(p: Seq<char>, r: Option<(nat, Seq<char>)>) -> Option<(nat, Seq<char>)> {
    match r {
        Some((n, o)) => Some((n + p.len(), p + o)),
        None => None,
    }
}

proof fn lemma_tags_view(tags: Vec<Vec<char>>)
    requires
        tags@.len() == uniform_names().len(),
        forall|k: int| 0 <= k < tags@.len() ==> (#[trigger] tags@[k])@ == uniform_names()[k],
    ensures
        tags@.map_values(|t: Vec<char>| t@) == uniform_names(),
{
    assert(tags@.map_values(|t: Vec<char>| t@) =~= uniform_names());
}

/// From `from` on, the first position of `s` where a uniform variable
/// begins, and which one it is.
fn scan_uniform(s: &Vec<char>, from: usize, tags: &Vec<Vec<char>>) -> (r: Option<(usize, usize)>)
    requires
        from <= s.len(),
        tags@.map_values(|t: Vec<char>| t@) == uniform_names(),
        forall|k: int| 0 <= k < tags@.len() ==> (#[trigger] tags@[k])@.len() > 0,
    ensures
        match r {
            Some((p, k)) => from <= p < s.len() && k < tags.len() && p + tags@[k as int]@.len()
                <= s.len() && up_to_uniform(s@.skip(from as int)) == shifted(
                s@.subrange(from as int, p as int),
                Some((tags@[k as int]@.len(), "uni."@ + tags@[k as int]@)),
            ),
            None => up_to_uniform(s@.skip(from as int)) is None,
        },
{
    let mut pos = from;
    while pos < s.len()
        invariant
            from <= pos <= s.len(),
            tags@.map_values(|t: Vec<char>| t@) == uniform_names(),
            forall|k: int| 0 <= k < tags@.len() ==> (#[trigger] tags@[k])@.len() > 0,
            up_to_uniform(s@.skip(from as int)) == shifted(
                s@.subrange(from as int, pos as int),
                up_to_uniform(s@.skip(pos as int)),
            ),
        decreases s.len() - pos,
    {
        let found = find_tag(s, pos, tags);
        if let Some(k) = found {
            proof {
                lemma_first_tag_fits(s@.skip(pos as int), uniform_names());
            }
            return Some((pos, k));
        }
        assert(s@.skip(pos as int).skip(1) =~= s@.skip(pos + 1));
        assert(s@.subrange(from as int, pos + 1) =~= s@.subrange(from as int, pos as int).push(
            s@[pos as int],
        ));
        assert(s@.subrange(from as int, pos as int) + seq![s@[pos as int]] =~= s@.subrange(
            from as int,
            pos + 1,
        ));
        pos = pos + 1;
    }
    assert(s@.skip(pos as int).len() == 0);
    None
}

/// Reads a uniform variable at the start of the input and writes it with
/// `uni.` before it.
pub fn replace_tag(i: &str) -> (r: ParserResult<String>)
    ensures
        match uniform_at(i@) {
            Some(t) => r matches Ok((rest, out)) && rest@ == i@.skip(t.len() as int) && out@
                == "uni."@ + t,
            None => r == Err::<(&str, String), ParseError>(ParseError::Mismatch),
        },
{
    let s = to_chars(i);
    let tags = uniform_tags();
    proof {
        lemma_tags_view(tags);
    }
    match find_tag(&s, 0, &tags) {
        Some(k) => {
            proof {
                assert(s@.skip(0) =~= s@);
                lemma_first_tag_fits(s@, uniform_names());
            }
            let mut out = String::new();
            out.append("uni.");
            push_range(&mut out, &tags[k], 0, tags[k].len());
            assert(tags@[k as int]@.subrange(0, tags@[k as int]@.len() as int) =~= tags@[k as int]@);
            let rest = suffix(i, tags[k].len());
            Ok((rest, out))
        },
        None => {
            assert(s@.skip(0) =~= s@);
            Err(ParseError::Mismatch)
        },
    }
}

/// Reads up to the first uniform variable and writes what it read with
/// `uni.` before that variable; fails where there is none.
pub fn replace_uni(i: &str) -> (r: ParserResult<String>)
    ensures
        match up_to_uniform(i@) {
            Some((n, o)) => r matches Ok((rest, out)) && rest@ == i@.skip(n as int) && out@ == o,
            None => r == Err::<(&str, String), ParseError>(ParseError::Mismatch),
        },
{
    let s = to_chars(i);
    let tags = uniform_tags();
    proof {
        lemma_tags_view(tags);
        assert(s@.skip(0) =~= s@);
    }
    match scan_uniform(&s, 0, &tags) {
        Some((p, k)) => {
            let mut out = String::new();
            push_range(&mut out, &s, 0, p);
            out.append("uni.");
            push_range(&mut out, &tags[k], 0, tags[k].len());
            assert(tags@[k as int]@.subrange(0, tags@[k as int]@.len() as int) =~= tags@[k as int]@);
            let rest = suffix(i, p + tags[k].len());
            Ok((rest, out))
        },
        None => Err(ParseError::Mismatch),
    }
}

/// Reads up to the last uniform variable, putting `uni.` before each
/// uniform variable that it reads.
pub fn replace_all_unis(i: &str) -> (r: ParserResult<String>)
    ensures
        r matches Ok((rest, out)) && rest@ == i@.skip(up_to_last_uniform(i@).0 as int) && out@
            == up_to_last_uniform(i@).1,
{
    let s = to_chars(i);
    let tags = uniform_tags();
    proof {
        lemma_tags_view(tags);
    }
    let mut out = String::new();
    let mut pos: usize = 0;
    assert(s@.skip(0) =~= s@);
    loop
        invariant
            pos <= s.len(),
            s@ == i@,
            tags@.map_values(|t: Vec<char>| t@) == uniform_names(),
            forall|k: int| 0 <= k < tags@.len() ==> (#[trigger] tags@[k])@.len() > 0,
            up_to_last_uniform(i@).0 == pos + up_to_last_uniform(s@.skip(pos as int)).0,
            up_to_last_uniform(i@).1 == out@ + up_to_last_uniform(s@.skip(pos as int)).1,
        ensures
            pos <= s.len(),
            up_to_last_uniform(i@).0 == pos,
            up_to_last_uniform(i@).1 == out@,
        decreases s.len() - pos,
    {
        match scan_uniform(&s, pos, &tags) {
            Some((p, k)) => {
                let ghost n = (p - pos) + tags@[k as int]@.len();
                let ghost o0 = out@;
                push_range(&mut out, &s, pos, p);
                out.append("uni.");
                push_range(&mut out, &tags[k], 0, tags[k].len());
                assert(tags@[k as int]@.subrange(0, tags@[k as int]@.len() as int) =~= tags@[k as int]@);
                assert(s@.skip(pos as int).skip(n as int) =~= s@.skip((p + tags@[k as int]@.len()) as int));
                assert(out@ =~= o0 + (s@.subrange(pos as int, p as int) + ("uni."@ + tags@[k as int]@)));
                pos = p + tags[k].len();
            },
            None => {
                assert(up_to_last_uniform(s@.skip(pos as int)) == (0nat, Seq::<char>::empty()));
                assert(out@ + Seq::<char>::empty() =~= out@);
                break;
            },
        }
    }
    let rest = suffix(i, pos);
    assert(out@ + Seq::<char>::empty() =~= out@);
    Ok((rest, out))
}

proof fn lemma_prefix_up_to(s: Seq<char>)
    ensures
        match up_to_uniform(s) {
            Some((n, o)) => n <= s.len() && prefix_uniforms(s) == o + prefix_uniforms(s.skip(n as int)),
            None => prefix_uniforms(s) == s,
        },
    decreases s.len(),
{
    if s.len() == 0 {
    } else if uniform_at(s) is Some && 0 < uniform_at(s)->0.len() <= s.len() {
    } else {
        lemma_prefix_up_to(s.skip(1));
        assert(s.skip(1).len() < s.len());
        match up_to_uniform(s.skip(1)) {
            Some((n, o)) => {
                assert(s.skip(1).skip(n as int) =~= s.skip((n + 1) as int));
            },
            None => {
                assert(seq![s[0]] + s.skip(1) =~= s);
            },
        }
    }
}

/// Putting `uni.` before the uniform variables up to the last one, then
/// copying the rest, is putting `uni.` before every uniform variable.
pub proof fn lemma_prefix_uniforms_in_two_steps(s: Seq<char>)
    ensures
        up_to_last_uniform(s).0 <= s.len(),
        prefix_uniforms(s) == up_to_last_uniform(s).1 + s.skip(up_to_last_uniform(s).0 as int),
    decreases s.len(),
{
    lemma_prefix_up_to(s);
    match up_to_uniform(s) {
        Some((n, o)) => {
            if 0 < n <= s.len() {
                lemma_prefix_uniforms_in_two_steps(s.skip(n as int));
                let (n2, o2) = up_to_last_uniform(s.skip(n as int));
                assert(s.skip(n as int).skip(n2 as int) =~= s.skip((n + n2) as int));
            } else {
                assert(s.skip(0) =~= s);
                lemma_no_empty_uniform(s);
            }
        },
        None => {
            assert(s.skip(0) =~= s);
        },
    }
}

proof fn lemma_no_empty_uniform(s: Seq<char>)
    ensures
        up_to_uniform(s) matches Some((n, o)) ==> 0 < n <= s.len(),
    decreases s.len(),
{
    if s.len() > 0 && !(uniform_at(s) is Some && 0 < uniform_at(s)->0.len() <= s.len()) {
        lemma_no_empty_uniform(s.skip(1));
    }
}

/// Puts `uni.` before every uniform variable of the input, read from left to
/// right; it reads the whole input.
pub fn uniform_vars_parser(i: &str) -> (r: ParserResult<String>)
    ensures
        r matches Ok((rest, out)) && rest@ == Seq::<char>::empty() && out@ == prefix_uniforms(i@),
{
    let (rest, replaced) = match replace_all_unis(i) {
        Ok(x) => x,
        Err(e) => return Err(e),
    };
    let mut replaced_unis = replaced;
    replaced_unis.append(rest);
    proof {
        lemma_prefix_uniforms_in_two_steps(i@);
        reveal_strlit("");
    }
    Ok(("", replaced_unis))
}

/// `s` does not begin with `t` where they differ at `k`.
proof fn lemma_differs_at(s: Seq<char>, t: Seq<char>, k: int)
    requires
        0 <= k < t.len(),
        k < s.len(),
        s[k] != t[k],
    ensures
        !starts_with(s, t),
{
    if starts_with(s, t) {
        assert(s.take(t.len() as int)[k] == s[k]);
    }
}

/// The tag of `tags` at `k` is the first one that `s` begins with when `s`
/// begins with it and with none before it.
proof fn lemma_first_tag_at(s: Seq<char>, tags: Seq<Seq<char>>, k: int)
    requires
        0 <= k < tags.len(),
        starts_with(s, tags[k]),
        forall|j: int| 0 <= j < k ==> !starts_with(s, #[trigger] tags[j]),
    ensures
        first_tag(s, tags) == Some(tags[k]),
    decreases k,
{
    if k > 0 {
        assert(!starts_with(s, tags[0]));
        let rest = tags.drop_first();
        assert forall|j: int| 0 <= j < k - 1 implies !starts_with(s, #[trigger] rest[j]) by {
            assert(rest[j] == tags[j + 1]);
        }
        lemma_first_tag_at(s, rest, k - 1);
    }
}

/// Text that begins with a character other than `i` begins with no uniform
/// variable.
proof fn lemma_no_uniform_here(s: Seq<char>)
    requires
        s.len() > 0,
        s[0] != 'i',
    ensures
        uniform_at(s) is None,
{
    reveal_strlit("iResolution");
    reveal_strlit("iFrame");
    reveal_strlit("iTime");
    reveal_strlit("iTimeDelta");
    reveal_strlit("iSampleRate");
    reveal_strlit("iMouse");
    reveal_strlit("iChannelTime");
    reveal_strlit("iChannelResolution");
    reveal_strlit("iDate");
    let names = uniform_names();
    assert forall|j: int| 0 <= j < names.len() implies !starts_with(s, #[trigger] names[j]) by {
        assert(names[j][0] == 'i');
        lemma_differs_at(s, names[j], 0);
    }
    lemma_no_first_tag(s, names);
}

proof fn lemma_no_first_tag(s: Seq<char>, tags: Seq<Seq<char>>)
    requires
        forall|j: int| 0 <= j < tags.len() ==> !starts_with(s, #[trigger] tags[j]),
    ensures
        first_tag(s, tags) is None,
    decreases tags.len(),
{
    if tags.len() > 0 {
        let rest = tags.drop_first();
        assert forall|j: int| 0 <= j < rest.len() implies !starts_with(s, #[trigger] rest[j]) by {
            assert(rest[j] == tags[j + 1]);
        }
        lemma_no_first_tag(s, rest);
    }
}

/// Text that does not begin with `i` is copied on by its first character.
proof fn lemma_copy_first(s: Seq<char>)
    requires
        s.len() > 0,
        s[0] != 'i',
    ensures
        prefix_uniforms(s) == seq![s[0]] + prefix_uniforms(s.skip(1)),
{
    lemma_no_uniform_here(s);
}

/// Where `s` is the uniform variable `u`, the `k`-th one tried, followed by
/// `rest`, and begins with none tried before it, `u` gets `uni.` before it.
proof fn lemma_prefixed_by_index(s: Seq<char>, u: Seq<char>, rest: Seq<char>, k: int)
    requires
        s == u + rest,
        0 <= k < uniform_names().len(),
        uniform_names()[k] == u,
        u.len() > 0,
        forall|j: int| 0 <= j < k ==> !starts_with(s, #[trigger] uniform_names()[j]),
    ensures
        prefix_uniforms(s) == "uni."@ + u + prefix_uniforms(rest),
{
    assert(s.take(u.len() as int) =~= u);
    assert(s.skip(u.len() as int) =~= rest);
    lemma_first_tag_at(s, uniform_names(), k);
}

/// `iTimeDelta` begins with `iTime`, which is tried first: the rest of the
/// name is copied on.
proof fn lemma_time_delta_prefixed(rest: Seq<char>)
    ensures
        prefix_uniforms("iTimeDelta"@ + rest) == "uni."@ + "iTimeDelta"@ + prefix_uniforms(rest),
{
    reveal_strlit("iResolution");
    reveal_strlit("iFrame");
    reveal_strlit("iTime");
    reveal_strlit("iTimeDelta");
    reveal_strlit("Delta");
    let names = uniform_names();
    let s = "iTimeDelta"@ + rest;
    let d = "Delta"@ + rest;
    assert(s =~= "iTime"@ + d);
    assert(names[2] == "iTime"@);
    lemma_differs_at(s, names[0], 1);
    lemma_differs_at(s, names[1], 1);
    assert forall|j: int| 0 <= j < 2 implies !starts_with(s, #[trigger] uniform_names()[j]) by {}
    lemma_prefixed_by_index(s, "iTime"@, d, 2);
    lemma_copy_first(d);
    lemma_copy_first(d.skip(1));
    lemma_copy_first(d.skip(2));
    lemma_copy_first(d.skip(3));
    lemma_copy_first(d.skip(4));
    assert(d.skip(1).skip(1) =~= d.skip(2));
    assert(d.skip(2).skip(1) =~= d.skip(3));
    assert(d.skip(3).skip(1) =~= d.skip(4));
    assert(d.skip(4).skip(1) =~= rest);
    assert(prefix_uniforms(d) =~= "Delta"@ + prefix_uniforms(rest));
    assert("uni."@ + "iTime"@ + ("Delta"@ + prefix_uniforms(rest)) =~= "uni."@ + "iTimeDelta"@
        + prefix_uniforms(rest));
}

/// Each of the shader's uniform variables (`iResolution`, `iFrame`,
/// `iTime`, `iTimeDelta`, `iSampleRate`, `iMouse`, `iChannelTime`,
/// `iChannelResolution`, `iDate`) is read from `uni` wherever it stands:
/// the text that begins with it gets `uni.` before it, and the rest of the
/// text is handled on its own.
#[verifier::spinoff_prover]
#[verifier::rlimit(50)]
pub proof fn lemma_every_uniform_is_prefixed(u: Seq<char>, rest: Seq<char>)
    requires
        u == "iResolution"@ || u == "iFrame"@ || u == "iTime"@ || u == "iTimeDelta"@ || u
            == "iSampleRate"@ || u == "iMouse"@ || u == "iChannelTime"@ || u
            == "iChannelResolution"@ || u == "iDate"@,
    ensures
        prefix_uniforms(u + rest) == "uni."@ + u + prefix_uniforms(rest),
{
    reveal_strlit("iResolution");
    reveal_strlit("iFrame");
    reveal_strlit("iTime");
    reveal_strlit("iTimeDelta");
    reveal_strlit("iSampleRate");
    reveal_strlit("iMouse");
    reveal_strlit("iChannelTime");
    reveal_strlit("iChannelResolution");
    reveal_strlit("iDate");
    let names = uniform_names();
    let s = u + rest;
    if u == "iTimeDelta"@ {
        lemma_time_delta_prefixed(rest);
    } else {
        let k: int = if u == "iResolution"@ {
            0
        } else if u == "iFrame"@ {
            1
        } else if u == "iTime"@ {
            2
        } else if u == "iSampleRate"@ {
            4
        } else if u == "iMouse"@ {
            5
        } else if u == "iChannelTime"@ {
            6
        } else if u == "iChannelResolution"@ {
            7
        } else {
            8
        };
        assert(names[k] == u);
        assert forall|j: int| 0 <= j < k implies !starts_with(s, #[trigger] uniform_names()[j]) by {
            if u == "iChannelResolution"@ && j == 6 {
                lemma_differs_at(s, names[j], 8);
            } else {
                lemma_differs_at(s, names[j], 1);
            }
        }
        lemma_prefixed_by_index(s, u, rest, k);
    }
}

} // verus!
