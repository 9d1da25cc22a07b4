//! Character-level helpers shared by the printer and the text passes.

use vstd::prelude::*;

verus! {

/// The character of a decimal digit.
pub open spec fn digit_char(d: int) -> char {
    if d == 0 { '0' }
    else if d == 1 { '1' }
    else if d == 2 { '2' }
    else if d == 3 { '3' }
    else if d == 4 { '4' }
    else if d == 5 { '5' }
    else if d == 6 { '6' }
    else if d == 7 { '7' }
    else if d == 8 { '8' }
    else { '9' }
}

/// The decimal digits of a natural number, most significant first.
pub open spec fn nat_digits(n: nat) -> Seq<char>
    decreases n,
{
    if n < 10 {
        seq![digit_char(n as int)]
    } else {
        nat_digits(n / 10).push(digit_char((n % 10) as int))
    }
}

/// The decimal text of an integer, with a leading `-` when it is negative.
pub open spec fn int_text(x: int) -> Seq<char> {
    if x < 0 {
        seq!['-'] + nat_digits((-x) as nat)
    } else {
        nat_digits(x as nat)
    }
}

/// Appends one character to a string (std's `String::push`).
#[verifier::external_body]
pub(crate) fn push_char(s: &mut String, c: char)
    ensures
        final(s)@ == old(s)@.push(c),
{
    s.push(c);
}

fn digit(d: u64) -> (c: char)
    requires
        d < 10,
    ensures
        c == digit_char(d as int),
{
    if d == 0 { '0' }
    else if d == 1 { '1' }
    else if d == 2 { '2' }
    else if d == 3 { '3' }
    else if d == 4 { '4' }
    else if d == 5 { '5' }
    else if d == 6 { '6' }
    else if d == 7 { '7' }
    else if d == 8 { '8' }
    else { '9' }
}

/// Writes the decimal digits of `n`.
pub fn write_nat(f: &mut String, n: u64)
    ensures
        final(f)@ == old(f)@ + nat_digits(n as nat),
    decreases n,
{
    if n >= 10 {
        write_nat(f, n / 10);
    }
    push_char(f, digit(n % 10));
}

/// Writes the decimal text of `x`.
pub fn write_int(f: &mut String, x: i64)
    ensures
        final(f)@ == old(f)@ + int_text(x as int),
{
    if x < 0 {
        push_char(f, '-');
        let n: u64 = if x == i64::MIN { 9223372036854775808u64 } else { (-x) as u64 };
        write_nat(f, n);
    } else {
        write_nat(f, x as u64);
    }
}

/// The characters of a string slice, in order.
pub fn to_chars(s: &str) -> (r: Vec<char>)
    ensures
        r@ == s@,
{
    let mut r: Vec<char> = Vec::new();
    for c in it: s.chars()
        invariant
            r@ == it.seq().take(it.index()),
    {
        r.push(c);
    }
    r
}

/// Whether two string slices hold the same characters.
pub fn str_eq(a: &str, b: &str) -> (r: bool)
    ensures
        r == (a@ == b@),
{
    let n = a.unicode_len();
    if n != b.unicode_len() {
        return false;
    }
    let mut i: usize = 0;
    while i < n
        invariant
            n == a@.len(),
            n == b@.len(),
            i <= n,
            forall|j: int| 0 <= j < i ==> a@[j] == b@[j],
        decreases n - i,
    {
        if a.get_char(i) != b.get_char(i) {
            return false;
        }
        i = i + 1;
    }
    assert(a@ =~= b@);
    true
}

/// Whether `s` begins with `p`.
pub open spec fn starts_with(s: Seq<char>, p: Seq<char>) -> bool {
    p.len() <= s.len() && s.take(p.len() as int) == p
}

/// Whether `s` begins, at position `pos`, with the non-empty text `p`.
pub fn starts_with_at(s: &Vec<char>, pos: usize, p: &Vec<char>) -> (r: bool)
    requires
        pos <= s.len(),
    ensures
        r == starts_with(s@.skip(pos as int), p@),
{
    if p.len() > s.len() - pos {
        return false;
    }
    let mut k: usize = 0;
    while k < p.len()
        invariant
            pos + p.len() <= s.len(),
            k <= p.len(),
            forall|j: int| 0 <= j < k ==> s@[pos + j] == p@[j],
        decreases p.len() - k,
    {
        if s[pos + k] != p[k] {
            assert(s@.skip(pos as int).take(p.len() as int)[k as int] == s@[pos + k]);
            return false;
        }
        k = k + 1;
    }
    assert(s@.skip(pos as int).take(p.len() as int) =~= p@);
    true
}

/// The part of `s` from character `pos` on.
pub fn suffix(s: &str, pos: usize) -> (r: &str)
    requires
        pos <= s@.len(),
    ensures
        r@ == s@.skip(pos as int),
{
    let n = s.unicode_len();
    let r = s.substring_char(pos, n);
    assert(s@.subrange(pos as int, n as int) =~= s@.skip(pos as int));
    r
}

/// Appends the characters of `v` from position `from` to position `to`.
pub fn push_range(f: &mut String, v: &Vec<char>, from: usize, to: usize)
    requires
        from <= to <= v.len(),
    ensures
        final(f)@ == old(f)@ + v@.subrange(from as int, to as int),
{
    let ghost start = f@;
    let mut k = from;
    while k < to
        invariant
            from <= k <= to <= v.len(),
            f@ == start + v@.subrange(from as int, k as int),
        decreases to - k,
    {
        push_char(f, v[k]);
        assert(v@.subrange(from as int, k + 1) =~= v@.subrange(from as int, k as int).push(v@[k as int]));
        k = k + 1;
    }
}

/// Makes a string of the characters of `v`.
pub fn string_of(v: &Vec<char>) -> (r: String)
    ensures
        r@ == v@,
{
    let mut r = String::new();
    push_range(&mut r, v, 0, v.len());
    assert(v@.subrange(0, v.len() as int) =~= v@);
    r
}


/// Whether std classes `c` as alphanumeric (`char::is_alphanumeric`: the
/// Unicode `Alphabetic` or `Numeric` property).
pub uninterp spec fn is_alphanumeric_char(c: char) -> bool;

/// Whether `c` is an ASCII letter or an ASCII digit.
pub open spec fn is_ascii_alnum(c: char) -> bool {
    (97 <= (c as u32) <= 122) || (65 <= (c as u32) <= 90) || (48 <= (c as u32) <= 57)
}

/// std's `char::is_alphanumeric`. Its result is named `is_alphanumeric_char`;
/// of ASCII characters the contract states the documented answer (letters and
/// digits are alphanumeric, nothing else is). Which other characters are
/// alphanumeric is left to the Unicode tables and not stated.
#[verifier::external_body]
pub(crate) fn is_alphanumeric(c: char) -> (r: bool)
    ensures
        r == is_alphanumeric_char(c),
        (c as u32) < 128 ==> (r == is_ascii_alnum(c)),
{
    c.is_alphanumeric()
}

/// The position of the first occurrence of `p` in `s`.
pub open spec fn find_first(s: Seq<char>, p: Seq<char>) -> Option<nat>
    decreases s.len(),
{
    if starts_with(s, p) {
        Some(0)
    } else if s.len() == 0 {
        None
    } else {
        match find_first(s.skip(1), p) {
            Some(n) => Some(n + 1),
            None => None,
        }
    }
}

/// Where `find_first` finds `p`, `p` stands there.
pub proof fn lemma_find_first(s: Seq<char>, p: Seq<char>)
    ensures
        find_first(s, p) matches Some(n) ==> n + p.len() <= s.len() && starts_with(
            s.skip(n as int),
            p,
        ),
    decreases s.len(),
{
    if !starts_with(s, p) && s.len() > 0 {
        lemma_find_first(s.skip(1), p);
        if let Some(n) = find_first(s.skip(1), p) {
            assert(s.skip(1).skip(n as int) =~= s.skip(n + 1int));
        }
    } else if starts_with(s, p) {
        assert(s.skip(0) =~= s);
    }
}

/// From position `from` on, the first position where `p` stands in `s`.
pub fn find_from(s: &Vec<char>, from: usize, p: &Vec<char>) -> (r: Option<usize>)
    requires
        from <= s.len(),
    ensures
        match r {
            Some(k) => from <= k && k + p.len() <= s.len() && find_first(s@.skip(from as int), p@)
                == Some((k - from) as nat),
            None => find_first(s@.skip(from as int), p@) is None,
        },
{
    let mut k = from;
    loop
        invariant
            from <= k <= s.len(),
            find_first(s@.skip(from as int), p@) == match find_first(s@.skip(k as int), p@) {
                Some(n) => Some((n + (k - from)) as nat),
                None => None::<nat>,
            },
        decreases s.len() - k,
    {
        if starts_with_at(s, k, p) {
            return Some(k);
        }
        if k == s.len() {
            return None;
        }
        assert(s@.skip(k as int).skip(1) =~= s@.skip(k + 1));
        k = k + 1;
    }
}

/// The first of `tags` that `s` begins with.
pub open spec fn first_tag(s: Seq<char>, tags: Seq<Seq<char>>) -> Option<Seq<char>>
    decreases tags.len(),
{
    if tags.len() == 0 {
        None
    } else if starts_with(s, tags[0]) {
        Some(tags[0])
    } else {
        first_tag(s, tags.drop_first())
    }
}

/// The index in `tags` of the first tag that `s` begins with at `pos`.
pub fn find_tag(s: &Vec<char>, pos: usize, tags: &Vec<Vec<char>>) -> (r: Option<usize>)
    requires
        pos <= s.len(),
    ensures
        match r {
            Some(k) => k < tags.len() && first_tag(
                s@.skip(pos as int),
                tags@.map_values(|t: Vec<char>| t@),
            ) == Some(tags@[k as int]@),
            None => first_tag(s@.skip(pos as int), tags@.map_values(|t: Vec<char>| t@)) is None,
        },
{
    let ghost all = tags@.map_values(|t: Vec<char>| t@);
    let mut k: usize = 0;
    assert(all.skip(0) =~= all);
    while k < tags.len()
        invariant
            k <= tags.len(),
            pos <= s.len(),
            all == tags@.map_values(|t: Vec<char>| t@),
            first_tag(s@.skip(pos as int), all) == first_tag(s@.skip(pos as int), all.skip(k as int)),
        decreases tags.len() - k,
    {
        assert(all.skip(k as int)[0] == tags@[k as int]@);
        if starts_with_at(s, pos, &tags[k]) {
            return Some(k);
        }
        assert(all.skip(k as int).drop_first() =~= all.skip(k + 1));
        k = k + 1;
    }
    None
}

/// The tag that `first_tag` gives stands at the start of `s`.
pub proof fn lemma_first_tag_fits(s: Seq<char>, tags: Seq<Seq<char>>)
    requires
        first_tag(s, tags) is Some,
    ensures
        starts_with(s, first_tag(s, tags)->0),
    decreases tags.len(),
{
    if !starts_with(s, tags[0]) {
        lemma_first_tag_fits(s, tags.drop_first());
    }
}


/// The position of the first character of `s` that is one of `cs`.
pub open spec fn first_in(s: Seq<char>, cs: Seq<char>) -> Option<nat>
    decreases s.len(),
{
    if s.len() == 0 {
        None
    } else if cs.contains(s[0]) {
        Some(0)
    } else {
        match first_in(s.skip(1), cs) {
            Some(n) => Some(n + 1),
            None => None,
        }
    }
}

/// Whether `c` is one of `cs`.
pub fn has_char(cs: &Vec<char>, c: char) -> (r: bool)
    ensures
        r == cs@.contains(c),
{
    let mut k: usize = 0;
    while k < cs.len()
        invariant
            k <= cs.len(),
            forall|j: int| 0 <= j < k ==> cs@[j] != c,
        decreases cs.len() - k,
    {
        if cs[k] == c {
            return true;
        }
        k = k + 1;
    }
    false
}

/// From `from` on, the first position of `s` that holds one of `cs`.
pub fn first_in_from(s: &Vec<char>, from: usize, cs: &Vec<char>) -> (r: Option<usize>)
    requires
        from <= s.len(),
    ensures
        match first_in(s@.skip(from as int), cs@) {
            Some(n) => r == Some((from + n) as usize) && from + n < s.len(),
            None => r is None,
        },
{
    let mut k = from;
    while k < s.len() && !has_char(cs, s[k])
        invariant
            from <= k <= s.len(),
            first_in(s@.skip(from as int), cs@) == match first_in(s@.skip(k as int), cs@) {
                Some(n) => Some((n + (k - from)) as nat),
                None => None::<nat>,
            },
        decreases s.len() - k,
    {
        assert(s@.skip(k as int).skip(1) =~= s@.skip(k + 1));
        k = k + 1;
    }
    if k == s.len() {
        None
    } else {
        Some(k)
    }
}

/// The characters of `v` from `from` to `to`.
pub fn slice_vec(v: &Vec<char>, from: usize, to: usize) -> (r: Vec<char>)
    requires
        from <= to <= v.len(),
    ensures
        r@ == v@.subrange(from as int, to as int),
{
    let mut r: Vec<char> = Vec::new();
    let mut k = from;
    while k < to
        invariant
            from <= k <= to <= v.len(),
            r@ == v@.subrange(from as int, k as int),
        decreases to - k,
    {
        r.push(v[k]);
        assert(v@.subrange(from as int, k + 1) =~= v@.subrange(from as int, k as int).push(v@[k as int]));
        k = k + 1;
    }
    r
}

} // verus!
