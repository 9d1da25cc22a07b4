//! Properties of the text passes as a whole.

use vstd::prelude::*;
use crate::insert_new_arg_vars::{reassigned_func, reassigned_ok, replaced_reassigned};
use crate::let2var::{let_prefix, let_word, replaced_lets};
use crate::replace_inouts::{find_fn, inout_func, inouts_ok, remove_occurrences, replaced_inouts};
use crate::replace_main::replaced_main;
use crate::replace_mod::{mod_call, mods_ok, replaced_mods};
use crate::replace_texel_fetch::{blank_before, find_texture, texture_call, texture_names, replaced_textures, textures_ok};
use crate::replace_unis::{prefix_uniforms, uniform_at, uniform_names};
use crate::nom_helpers::{
    lemma_lead_len, replace_ident_from, replaced_ident, replaced_word, replaced_words, CharClass,
};
use crate::text::{find_first, first_tag, lemma_find_first, lemma_first_tag_fits, starts_with};
use crate::{
    cut_comment, postprocess_ok, postprocessed, post_main, post_unis, post_vars, post_void,
    preprocessed, uncommented_lines,
};
use crate::parse_func_defines::{
    all_define_funcs, define_func_at, define_func_tag_at, erased_func_defines,
    find_define_func_tag, find_func_define_line, func_define_line_at, func_defined,
};
use crate::replace_defines::{all_defines, defined, define_tag, erase_step, erased_defines};
use crate::replace_defs::{
    commented_define_at, def_step, defs_pass, define_tag_at, find_define, plain_define_at,
    replaced_defs,
};

verus! {

/// Where `p` does not occur in `s`, no suffix of `s` starts with it.
proof fn lemma_absent_nowhere(s: Seq<char>, p: Seq<char>, n: int)
    requires
        find_first(s, p) is None,
        0 <= n <= s.len(),
    ensures
        !starts_with(s.skip(n), p),
    decreases n,
{
    if n == 0 {
        assert(s.skip(0) =~= s);
    } else {
        assert(s.len() > 0);
        assert(find_first(s.skip(1), p) is None);
        lemma_absent_nowhere(s.skip(1), p, n - 1);
        assert(s.skip(1).skip(n - 1) =~= s.skip(n));
    }
}

/// Where `p` does not occur in `s`, no text that starts with `p` does.
proof fn lemma_absent_longer(s: Seq<char>, p: Seq<char>, q: Seq<char>)
    requires
        find_first(s, p) is None,
        starts_with(q, p),
    ensures
        find_first(s, q) is None,
{
    lemma_find_first(s, q);
    if let Some(n) = find_first(s, q) {
        lemma_absent_nowhere(s, p, n as int);
        assert(s.skip(n as int).take(p.len() as int) =~= q.take(p.len() as int));
    }
}

/// The tag that `first_tag` gives is one of the tags.
proof fn lemma_first_tag_member(s: Seq<char>, tags: Seq<Seq<char>>)
    requires
        first_tag(s, tags) is Some,
    ensures
        exists|k: int| 0 <= k < tags.len() && tags[k] == first_tag(s, tags)->0,
    decreases tags.len(),
{
    if !starts_with(s, tags[0]) {
        lemma_first_tag_member(s, tags.drop_first());
        let k = choose|k: int| 0 <= k < tags.drop_first().len() && tags.drop_first()[k] == first_tag(
            s,
            tags.drop_first(),
        )->0;
        assert(tags[k + 1] == tags.drop_first()[k]);
    } else {
        assert(tags[0] == first_tag(s, tags)->0);
    }
}

proof fn lemma_uniforms_unchanged(s: Seq<char>)
    requires
        forall|k: int| 0 <= k < uniform_names().len() ==> find_first(s, #[trigger] uniform_names()[k]) is None,
    ensures
        prefix_uniforms(s) == s,
    decreases s.len(),
{
    if s.len() > 0 {
        if uniform_at(s) is Some {
            lemma_first_tag_fits(s, uniform_names());
            lemma_first_tag_member(s, uniform_names());
            let k = choose|k: int| 0 <= k < uniform_names().len() && uniform_names()[k] == uniform_at(s)->0;
            assert(find_first(s, uniform_names()[k]) is None);
            assert(false);
        }
        assert forall|k: int| 0 <= k < uniform_names().len() implies find_first(
            s.skip(1),
            #[trigger] uniform_names()[k],
        ) is None by {
            assert(find_first(s, uniform_names()[k]) is None);
        }
        lemma_uniforms_unchanged(s.skip(1));
        assert(seq![s[0]] + s.skip(1) =~= s);
    }
}

proof fn lemma_void_unchanged(s: Seq<char>, p: Seq<char>)
    requires
        find_first(s, p) is None,
    ensures
        remove_occurrences(s, p) == s,
    decreases s.len(),
{
    if s.len() > 0 {
        assert(find_first(s.skip(1), p) is None);
        lemma_void_unchanged(s.skip(1), p);
        assert(seq![s[0]] + s.skip(1) =~= s);
    }
}

/// A function header that `find_fn` finds starts with `fn `.
proof fn lemma_find_fn_at(s: Seq<char>)
    ensures
        find_fn(s) matches Some((p, l, e, args)) ==> p <= s.len() && starts_with(
            s.skip(p as int),
            "fn "@,
        ),
    decreases s.len(),
{
    if find_fn(s) is Some && crate::replace_inouts::fn_header(s) is None {
        lemma_find_fn_at(s.skip(1));
        let p = (find_fn(s.skip(1))->0).0;
        assert(s.skip(1).skip(p as int) =~= s.skip(p + 1int));
    } else if find_fn(s) is Some {
        assert(s.skip(0) =~= s);
    }
}

/// A texture call that `find_texture` finds starts with one of the texture
/// functions' names.
proof fn lemma_find_texture_at(s: Seq<char>)
    ensures
        find_texture(s) matches Some((q, w, name, n, args)) ==> q + w <= s.len() && starts_with(
            s.skip(q + w as int),
            name,
        ) && (name == texture_names()[0] || name == texture_names()[1] || name
            == texture_names()[2]),
    decreases s.len(),
{
    if texture_call(s) is Some {
        let w = blank_before(s);
        lemma_lead_len(s, CharClass::Blank);
        lemma_first_tag_fits(s.skip(w as int), texture_names());
        lemma_first_tag_member(s.skip(w as int), texture_names());
        assert(s.skip(0 + w as int) =~= s.skip(w as int));
    } else if find_texture(s) is Some {
        lemma_find_texture_at(s.skip(1));
        let (q, w, name, n, args) = find_texture(s.skip(1))->0;
        assert(s.skip(1).skip(q + w as int) =~= s.skip(q + 1 + w as int));
    }
}

/// A program text in which none of the passes' keywords occurs (`let `, the
/// uniform variables, `fn `, `-> ()`, `texture`, `texelFetch`, `mod`) comes
/// out of the passes unchanged, and none of them fails on it.
pub proof fn lemma_postprocessing_keeps_plain_text(s: Seq<char>)
    requires
        find_first(s, "let "@) is None,
        forall|k: int| 0 <= k < uniform_names().len() ==> find_first(s, #[trigger] uniform_names()[k]) is None,
        find_first(s, "fn "@) is None,
        find_first(s, "-> ()"@) is None,
        find_first(s, "texture"@) is None,
        find_first(s, "texelFetch"@) is None,
        find_first(s, "mod"@) is None,
    ensures
        postprocess_ok(s),
        postprocessed(s) == s,
{
    assert(let_prefix(s) == (0nat, Seq::<char>::empty()));
    assert(replaced_lets(s) =~= s);
    lemma_uniforms_unchanged(s);
    assert(post_unis(s) == s);
    reveal_strlit("fn ");
    reveal_strlit("fn mainImage(");
    reveal_strlit("textureLod");
    reveal_strlit("texture");
    assert("fn mainImage("@.take(3) =~= "fn "@);
    lemma_absent_longer(s, "fn "@, "fn mainImage("@);
    assert(replaced_main(s) is None);
    assert(post_main(s) == s);
    lemma_find_fn_at(s);
    if find_fn(s) is Some {
        lemma_absent_nowhere(s, "fn "@, (find_fn(s)->0).0 as int);
    }
    assert(find_fn(s) is None);
    assert(inout_func(s) is None);
    assert(replaced_inouts(s) == s);
    assert(inouts_ok(s));
    lemma_void_unchanged(s, "-> ()"@);
    assert(post_void(s) == s);
    lemma_find_texture_at(s);
    assert("textureLod"@.take(7) =~= "texture"@);
    lemma_absent_longer(s, "texture"@, "textureLod"@);
    if find_texture(s) is Some {
        let (q, w, name, n, args) = find_texture(s)->0;
        if name == texture_names()[0] {
            lemma_absent_nowhere(s, "textureLod"@, q + w as int);
        } else if name == texture_names()[1] {
            lemma_absent_nowhere(s, "texture"@, q + w as int);
        } else {
            lemma_absent_nowhere(s, "texelFetch"@, q + w as int);
        }
    }
    assert(find_texture(s) is None);
    assert(replaced_textures(s) == s);
    assert(textures_ok(s));
    assert(reassigned_func(s) is None);
    assert(replaced_reassigned(s) == s);
    assert(reassigned_ok(s));
    assert(post_vars(s) == s);
    assert(mod_call(s) is None);
    assert(replaced_mods(s) == s);
    assert(mods_ok(s));
}


/// `b` is a letter of `var ` where `a` is the matching letter of `let `.
pub open spec fn keyword_letter(a: char, b: char) -> bool {
    (a == 'l' && b == 'v') || (a == 'e' && b == 'a') || (a == 't' && b == 'r')
}

/// `b` is `a` with some letters of `let ` turned into those of `var `.
pub open spec fn same_but_keywords(a: Seq<char>, b: Seq<char>) -> bool {
    a.len() == b.len() && forall|j: int| 0 <= j < a.len() ==> b[j] == a[j] || keyword_letter(
        #[trigger] a[j],
        b[j],
    )
}

proof fn lemma_let_prefix_letters(s: Seq<char>)
    ensures
        let_prefix(s).0 <= s.len(),
        same_but_keywords(s.take(let_prefix(s).0 as int), let_prefix(s).1),
    decreases s.len(),
{
    reveal_strlit("let ");
    reveal_strlit("var ");
    match find_first(s, "let "@) {
        Some(p) => {
            if p + 4 <= s.len() {
                let t = s.skip(p + 4int);
                lemma_let_prefix_letters(t);
                lemma_find_first(s, "let "@);
                let (n2, o2) = let_prefix(t);
                let w = let_word(s.skip(p as int));
                let n = p + 4 + n2;
                let o = s.take(p as int) + w + o2;
                assert(let_prefix(s) == (n, o));
                assert(s.skip(p as int).take(4) =~= "let "@);
                assert forall|j: int| 0 <= j < n implies o[j] == s.take(n as int)[j] || keyword_letter(
                    #[trigger] s.take(n as int)[j],
                    o[j],
                ) by {
                    if j < p {
                    } else if j < p + 4 {
                        assert(s[j] == s.skip(p as int).take(4)[j - p]);
                        assert(o[j] == w[j - p]);
                    } else {
                        assert(o[j] == o2[j - p - 4]);
                        assert(s.take(n as int)[j] == t.take(n2 as int)[j - p - 4]);
                    }
                }
            }
        },
        None => {},
    }
}

/// The `let` pass changes nothing but keywords: the text keeps its length,
/// and each character stays or is a letter of `let ` turned into the
/// matching letter of `var `.
pub proof fn lemma_let2var_changes_only_keywords(s: Seq<char>)
    ensures
        same_but_keywords(s, replaced_lets(s)),
{
    lemma_let_prefix_letters(s);
    let (n, o) = let_prefix(s);
    let r = replaced_lets(s);
    assert forall|j: int| 0 <= j < s.len() implies r[j] == s[j] || keyword_letter(#[trigger] s[j], r[j]) by {
        if j < n {
            assert(s.take(n as int)[j] == s[j]);
        } else {
            assert(r[j] == s.skip(n as int)[j - n]);
        }
    }
}


proof fn lemma_ident_self_from(s: Seq<char>, v: Seq<char>, acc: Seq<char>)
    ensures
        replace_ident_from(s, v, v, acc) == acc + s,
    decreases s.len(),
{
    if s.len() == 0 {
        assert(acc + s =~= acc);
        if v.len() == 0 {
            assert(acc + v =~= acc);
        }
    } else {
        match crate::nom_helpers::identifier_at(s) {
            Some(l) => {
                if s.take(l as int) == v {
                    lemma_ident_self_from(s.skip(l as int), v, acc + v);
                    assert(acc + v + s.skip(l as int) =~= acc + s);
                } else {
                    lemma_ident_self_from(s.skip(1), v, acc.push(s[0]));
                    assert(acc.push(s[0]) + s.skip(1) =~= acc + s);
                }
            },
            None => {
                lemma_ident_self_from(s.skip(1), v, acc.push(s[0]));
                assert(acc.push(s[0]) + s.skip(1) =~= acc + s);
            },
        }
    }
}

/// Replacing an identifier by itself changes nothing.
pub proof fn lemma_replace_ident_by_itself(s: Seq<char>, v: Seq<char>)
    ensures
        replaced_ident(s, v, v) == s,
{
    lemma_ident_self_from(s, v, Seq::empty());
    assert(Seq::<char>::empty() + s =~= s);
}

proof fn lemma_word_self(s: Seq<char>, v: Seq<char>)
    ensures
        replaced_word(s, v, v) == s,
    decreases s.len(),
{
    let l = crate::nom_helpers::lead_len(s, CharClass::IdentHash);
    if l > 0 && l <= s.len() && s.take(l as int) == v {
        if s.len() != l {
            lemma_word_self(s.skip(l as int), v);
        }
        assert(v + (if s.len() == l {
            Seq::<char>::empty()
        } else {
            s.skip(l as int)
        }) =~= s);
    } else if s.len() == 0 {
        if v.len() == 0 {
            assert(v =~= s);
        }
    } else {
        lemma_word_self(s.skip(1), v);
        assert(seq![s[0]] + s.skip(1) =~= s);
    }
}

/// Replacing a word by itself changes nothing.
pub proof fn lemma_replace_word_by_itself(s: Seq<char>, v: Seq<char>)
    ensures
        replaced_words(s, v, v) == s,
{
    if s.len() > 0 {
        lemma_word_self(s, v);
    }
}


/// No character of `s` is `#`.
pub open spec fn no_hash(s: Seq<char>) -> bool {
    forall|j: int| 0 <= j < s.len() ==> s[j] != '#'
}

proof fn lemma_no_hash_skip(s: Seq<char>, n: int)
    requires
        no_hash(s),
        0 <= n <= s.len(),
    ensures
        no_hash(s.skip(n)),
{
    assert forall|j: int| 0 <= j < s.skip(n).len() implies s.skip(n)[j] != '#' by {
        assert(s.skip(n)[j] == s[n + j]);
    }
}

proof fn lemma_no_hash_start(s: Seq<char>, t: Seq<char>)
    requires
        no_hash(s),
        t.len() > 0,
        t[0] == '#',
    ensures
        !starts_with(s, t),
{
    if starts_with(s, t) {
        assert(s.take(t.len() as int)[0] == s[0]);
    }
}

proof fn lemma_no_hash_find(s: Seq<char>, t: Seq<char>)
    requires
        no_hash(s),
        t.len() > 0,
        t[0] == '#',
    ensures
        find_first(s, t) is None,
    decreases s.len(),
{
    lemma_no_hash_start(s, t);
    if s.len() > 0 {
        lemma_no_hash_skip(s, 1);
        lemma_no_hash_find(s.skip(1), t);
    }
}

proof fn lemma_hash_literals()
    ensures
        "#define"@.len() > 0 && "#define"@[0] == '#',
        "#define "@.len() > 0 && "#define "@[0] == '#',
        "//"@.len() == 2,
{
    reveal_strlit("#define");
    reveal_strlit("#define ");
    reveal_strlit("//");
}

proof fn lemma_no_define_tag(s: Seq<char>, commented: bool)
    requires
        no_hash(s),
    ensures
        find_define(s, commented) is None,
    decreases s.len(),
{
    lemma_hash_literals();
    let a = crate::nom_helpers::lead_len(s, CharClass::Blank);
    lemma_lead_len(s, CharClass::Blank);
    lemma_no_hash_skip(s, a as int);
    lemma_no_hash_start(s.skip(a as int), "#define"@);
    if commented && starts_with(s.skip(a as int), "//"@) {
        let b = crate::nom_helpers::lead_len(s.skip(a + 2int), CharClass::Blank);
        lemma_no_hash_skip(s, a + 2int);
        lemma_lead_len(s.skip(a + 2int), CharClass::Blank);
        lemma_no_hash_skip(s, a + 2 + b as int);
        lemma_no_hash_start(s.skip(a + 2 + b as int), "#define"@);
    }
    assert(define_tag_at(s, commented) is None);
    if s.len() > 0 {
        lemma_no_hash_skip(s, 1);
        lemma_no_define_tag(s.skip(1), commented);
    }
}

proof fn lemma_no_func_define(s: Seq<char>)
    requires
        no_hash(s),
    ensures
        find_define_func_tag(s) is None,
        find_func_define_line(s) is None,
    decreases s.len(),
{
    lemma_hash_literals();
    lemma_no_hash_start(s, "#define"@);
    lemma_no_hash_start(s, "#define "@);
    assert(define_func_tag_at(s) is None);
    assert(func_define_line_at(s) is None);
    if s.len() > 0 {
        lemma_no_hash_skip(s, 1);
        lemma_no_func_define(s.skip(1));
    }
}

proof fn lemma_first_in_bound(s: Seq<char>, cs: Seq<char>)
    ensures
        crate::text::first_in(s, cs) matches Some(n) ==> n < s.len(),
    decreases s.len(),
{
    if s.len() > 0 {
        lemma_first_in_bound(s.skip(1), cs);
    }
}

proof fn lemma_cut_comment_prefix(line: Seq<char>)
    ensures
        cut_comment(line).len() <= line.len(),
        forall|j: int| 0 <= j < cut_comment(line).len() ==> cut_comment(line)[j] == line[j],
{
    reveal_strlit("//");
    lemma_find_first(line, "//"@);
}

proof fn lemma_uncommented_no_hash(s: Seq<char>)
    requires
        no_hash(s),
    ensures
        no_hash(uncommented_lines(s)),
    decreases s.len(),
{
    if s.len() > 0 {
        lemma_first_in_bound(s, seq!['\n']);
        match crate::text::first_in(s, seq!['\n']) {
            Some(n) => {
                let line = if n > 0 && s[n - 1] == '\r' {
                    s.take(n - 1)
                } else {
                    s.take(n as int)
                };
                let c = cut_comment(line);
                lemma_cut_comment_prefix(line);
                assert(no_hash(c)) by {
                    assert forall|j: int| 0 <= j < c.len() implies c[j] != '#' by {
                        assert(c[j] == line[j]);
                        assert(line[j] == s[j]);
                    }
                }
                if n + 1 <= s.len() {
                    lemma_no_hash_skip(s, n + 1int);
                    lemma_uncommented_no_hash(s.skip(n + 1int));
                }
                let u = uncommented_lines(s);
                assert forall|j: int| 0 <= j < u.len() implies u[j] != '#' by {
                    if j < c.len() {
                    } else if j == c.len() {
                    } else {
                        assert(u[j] == uncommented_lines(s.skip(n + 1int))[j - c.len() - 1]);
                    }
                }
            },
            None => {
                let c = cut_comment(s);
                lemma_cut_comment_prefix(s);
                assert forall|j: int| 0 <= j < c.len() implies c[j] != '#' by {
                    assert(c[j] == s[j]);
                }
            },
        }
    }
}

/// A program without `#` comes out of the preprocessing with only its
/// comments cut and its lines ended by `\n`.
pub proof fn lemma_preprocessing_without_directives(s: Seq<char>)
    requires
        no_hash(s),
    ensures
        preprocessed(s) == uncommented_lines(s),
{
    lemma_no_define_tag(s, true);
    assert(def_step(s, true) is None);
    assert(defs_pass(s, true) == s);
    lemma_no_define_tag(s, false);
    assert(def_step(s, false) is None);
    assert(replaced_defs(s) == s);
    let u = uncommented_lines(s);
    lemma_uncommented_no_hash(s);
    lemma_no_func_define(u);
    assert(define_func_at(u) is None);
    assert(all_define_funcs(u) =~= Seq::<(Seq<char>, Seq<Seq<char>>, Seq<char>)>::empty());
    assert(erased_func_defines(u) == u);
    assert(func_defined(u) == u);
    lemma_hash_literals();
    lemma_no_hash_find(u, "#define"@);
    lemma_no_hash_find(u, "#define "@);
    assert(define_tag(u) is None);
    assert(all_defines(u) =~= Seq::<(Seq<char>, Seq<char>)>::empty());
    assert(erase_step(u) is None);
    assert(erased_defines(u) == u);
    assert(defined(u) == u);
}

} // verus!
