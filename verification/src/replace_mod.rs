//! Replaces the GLSL calls `mod(a, b)` by the WGSL expression `((a) % (b))`.

use vstd::prelude::*;
use crate::nom_helpers::{call_args, call_args_at, parsed, ParseError, ParserResult};
use crate::text::{find_first, find_from, lemma_find_first, push_range, suffix, to_chars};

verus! {

/// The first `mod` of `s` and the argument list that follows it: where `mod`
/// stands, where the call ends and its arguments. `None` where `s` has no
/// `mod`, or where its first `mod` is not followed by an argument list.
pub open spec fn mod_call(s: Seq<char>) -> Option<(nat, nat, Seq<Seq<char>>)> {
    match find_first(s, "mod"@) {
        Some(p) => match call_args(s.skip(p + "mod"@.len() as int)) {
            Some((n, args)) => Some((p, p + "mod"@.len() + n, args)),
            None => None,
        },
        None => None,
    }
}

/// The text up to and with the first `mod` call, the call written with `%`.
pub open spec fn mod_text(s: Seq<char>, p: nat, args: Seq<Seq<char>>) -> Seq<char> {
    s.take(p as int) + "(("@ + args[0] + ") % ("@ + args[1] + "))"@
}

/// Every `mod` call that `replace_all_mods` rewrites has two arguments or
/// more.
pub open spec fn mods_ok(s: Seq<char>) -> bool
    decreases s.len(),
{
    match mod_call(s) {
        Some((p, n, args)) => args.len() >= 2 && (0 < n <= s.len() ==> mods_ok(s.skip(n as int))),
        None => true,
    }
}

/// `s` with its `mod` calls rewritten from left to right, up to the first
/// `mod` that is not followed by an argument list.
pub open spec fn replaced_mods(s: Seq<char>) -> Seq<char>
    decreases s.len(),
{
    match mod_call(s) {
        Some((p, n, args)) => if 0 < n <= s.len() {
            mod_text(s, p, args) + replaced_mods(s.skip(n as int))
        } else {
            s
        },
        None => s,
    }
}

fn mod_at(s: &Vec<char>, pos: usize, pat: &Vec<char>) -> (r: Option<(usize, usize, Vec<String>)>)
    requires
        pos <= s.len(),
        pat@ == "mod"@,
    ensures
        match mod_call(s@.skip(pos as int)) {
            Some((p, n, args)) => r matches Some((q, e, out)) && q == pos + p && e == pos + n && q
                < e <= s.len() && out@.len() == args.len() && forall|j: int|
                0 <= j < args.len() ==> (#[trigger] out@[j])@ == args[j],
            None => r is None,
        },
{
    let ghost t = s@.skip(pos as int);
    match find_from(s, pos, pat) {
        Some(q) => {
            assert(t.skip((q - pos) + pat@.len()) =~= s@.skip(q + pat.len()));
            match call_args_at(s, q + pat.len()) {
                Some((e, out)) => Some((q, e, out)),
                None => None,
            }
        },
        None => None,
    }
}

/// Reads up to the end of the first `mod(a, b, ...)` call and writes what
/// it read with the call as `((a) % (b))`.
pub fn replace_one_mod(i: &str) -> (r: ParserResult<String>)
    requires
        mod_call(i@) matches Some((p, n, args)) ==> args.len() >= 2,
    ensures
        match mod_call(i@) {
            Some((p, n, args)) => parsed(r, i@.skip(n as int), mod_text(i@, p, args)),
            None => r is Err,
        },
{
    let s = to_chars(i);
    let pat = to_chars("mod");
    assert(s@.skip(0) =~= s@);
    match mod_at(&s, 0, &pat) {
        Some((q, e, args)) => {
            let mut out = String::new();
            push_range(&mut out, &s, 0, q);
            out.append("((");
            out.append(args[0].as_str());
            out.append(") % (");
            out.append(args[1].as_str());
            out.append("))");
            assert(s@.subrange(0, q as int) =~= s@.take(q as int));
            Ok((suffix(i, e), out))
        },
        None => Err(ParseError::Mismatch),
    }
}

/// Rewrites the `mod` calls of the text from left to right, up to the first
/// `mod` that is not followed by an argument list, and copies the rest; it
/// reads the whole input.
#[verifier::rlimit(40)]
pub fn replace_all_mods(i: &str) -> (r: ParserResult<String>)
    requires
        mods_ok(i@),
    ensures
        parsed(r, Seq::empty(), replaced_mods(i@)),
{
    let s = to_chars(i);
    let pat = to_chars("mod");
    let mut out = String::new();
    let mut k: usize = 0;
    assert(s@.skip(0) =~= s@);
    loop
        invariant
            k <= s.len(),
            s@ == i@,
            pat@ == "mod"@,
            mods_ok(s@.skip(k as int)),
            replaced_mods(i@) == out@ + replaced_mods(s@.skip(k as int)),
        ensures
            k <= s.len(),
            replaced_mods(i@) == out@ + s@.skip(k as int),
        decreases s.len() - k,
    {
        let ghost t = s@.skip(k as int);
        match mod_at(&s, k, &pat) {
            Some((q, e, args)) => {
                let ghost o0 = out@;
                let ghost p = (q - k) as nat;
                let ghost n = (e - k) as nat;
                proof {
                    assert(mod_call(t) == Some((p, n, (mod_call(t)->0).2)));
                    assert(args.len() >= 2);
                    assert(replaced_mods(t) == mod_text(t, p, (mod_call(t)->0).2) + replaced_mods(t.skip(n as int)));
                }
                push_range(&mut out, &s, k, q);
                out.append("((");
                out.append(args[0].as_str());
                out.append(") % (");
                out.append(args[1].as_str());
                out.append("))");
                proof {
                    assert(t.take(q - k) =~= s@.subrange(k as int, q as int));
                    assert(t.skip(e - k) =~= s@.skip(e as int));
                    assert(out@ =~= o0 + mod_text(t, (q - k) as nat, (mod_call(t)->0).2));
                }
                k = e;
            },
            None => {
                assert(replaced_mods(t) == t);
                break;
            },
        }
    }
    push_range(&mut out, &s, k, s.len());
    assert(s@.subrange(k as int, s.len() as int) =~= s@.skip(k as int));
    proof {
        reveal_strlit("");
        assert(""@ =~= Seq::<char>::empty());
    }
    Ok(("", out))
}


/// Whether every `mod` call that `replace_all_mods` rewrites has two
/// arguments or more.
pub fn mods_ok_exec(i: &str) -> (b: bool)
    ensures
        b == mods_ok(i@),
{
    let s = to_chars(i);
    let pat = to_chars("mod");
    let mut k: usize = 0;
    assert(s@.skip(0) =~= s@);
    loop
        invariant
            k <= s.len(),
            s@ == i@,
            pat@ == "mod"@,
            mods_ok(i@) == mods_ok(s@.skip(k as int)),
        decreases s.len() - k,
    {
        let ghost t = s@.skip(k as int);
        match mod_at(&s, k, &pat) {
            Some((_q, e, args)) => {
                if args.len() < 2 {
                    return false;
                }
                assert(t.skip((e - k) as int) =~= s@.skip(e as int));
                k = e;
            },
            None => {
                return true;
            },
        }
    }
}

} // verus!
