//! Character classes, ASCII case mapping, string equality and joining.

use vstd::prelude::*;

verus! {

/// `c` is an ASCII capital letter (what `char::is_ascii_uppercase` tests).
pub open spec fn is_upper(c: char) -> bool {
    'A' <= c && c <= 'Z'
}

/// `c` is an ASCII small letter (what `char::is_ascii_lowercase` tests).
pub open spec fn is_lower(c: char) -> bool {
    'a' <= c && c <= 'z'
}

/// The ASCII lower-case form of `c`; every other character is kept
/// (what `char::to_ascii_lowercase` gives).
pub open spec fn lower_char(c: char) -> char {
    if is_upper(c) {
        ((c as u32) + 32) as char
    } else {
        c
    }
}

/// The ASCII upper-case form of `c`; every other character is kept
/// (what `char::to_ascii_uppercase` gives).
pub open spec fn upper_char(c: char) -> char {
    if is_lower(c) {
        ((c as u32) - 32) as char
    } else {
        c
    }
}

/// Every character of `s` in its ASCII lower-case form.
pub open spec fn lower_str(s: Seq<char>) -> Seq<char> {
    s.map_values(|c: char| lower_char(c))
}

/// Every character of `s` in its ASCII upper-case form.
pub open spec fn upper_str(s: Seq<char>) -> Seq<char> {
    s.map_values(|c: char| upper_char(c))
}

/// Whether a character beyond ASCII has the Unicode `Alphabetic` property,
/// as `char::is_alphabetic` decides.
pub uninterp spec fn unicode_alphabetic(c: char) -> bool;

/// Whether `c` has the Unicode `Alphabetic` property: among the ASCII
/// characters, exactly the letters have it.
pub open spec fn alphabetic(c: char) -> bool {
    if (c as u32) < 128 {
        is_upper(c) || is_lower(c)
    } else {
        unicode_alphabetic(c)
    }
}

/// Calls `char::is_alphabetic`. Claimed: among the ASCII characters exactly
/// the letters are alphabetic; for the others the result is
/// `unicode_alphabetic(c)`, a function of `c` alone. The Unicode table behind
/// that name is left unsaid.
#[verifier::external_body]
pub(crate) fn is_alphabetic(c: char) -> (r: bool)
    ensures
        r == (if (c as u32) < 128 {
            is_upper(c) || is_lower(c)
        } else {
            unicode_alphabetic(c)
        }),
{
    c.is_alphabetic()
}

/// Calls `String::push`. Claimed: `c` is appended at the end, nothing else changes.
#[verifier::external_body]
pub(crate) fn push_char(s: &mut String, c: char)
    ensures
        final(s)@ == old(s)@.push(c),
{
    s.push(c)
}

pub fn to_lower_char(c: char) -> (r: char)
    ensures
        r == lower_char(c),
{
    if 'A' <= c && c <= 'Z' {
        let b: u8 = (c as u8) + 32;
        b as char
    } else {
        c
    }
}

pub fn to_upper_char(c: char) -> (r: char)
    ensures
        r == upper_char(c),
{
    if 'a' <= c && c <= 'z' {
        let b: u8 = (c as u8) - 32;
        b as char
    } else {
        c
    }
}

/// `s` with every ASCII letter in lower case (`str::to_ascii_lowercase`).
pub fn to_ascii_lowercase(s: &str) -> (r: String)
    ensures
        r@ == lower_str(s@),
{
    let n = s.unicode_len();
    let mut r = String::new();
    let mut i: usize = 0;
    while i < n
        invariant
            n == s@.len(),
            i <= n,
            r@ =~= lower_str(s@.take(i as int)),
        decreases n - i,
    {
        let c = s.get_char(i);
        push_char(&mut r, to_lower_char(c));
        assert(s@.take(i + 1) =~= s@.take(i as int).push(c));
        i += 1;
    }
    assert(s@.take(n as int) =~= s@);
    r
}

/// `s` with every ASCII letter in upper case (`str::to_ascii_uppercase`).
pub fn to_ascii_uppercase(s: &str) -> (r: String)
    ensures
        r@ == upper_str(s@),
{
    let n = s.unicode_len();
    let mut r = String::new();
    let mut i: usize = 0;
    while i < n
        invariant
            n == s@.len(),
            i <= n,
            r@ =~= upper_str(s@.take(i as int)),
        decreases n - i,
    {
        let c = s.get_char(i);
        push_char(&mut r, to_upper_char(c));
        assert(s@.take(i + 1) =~= s@.take(i as int).push(c));
        i += 1;
    }
    assert(s@.take(n as int) =~= s@);
    r
}

/// Whether two strings hold the same characters.
pub fn str_eq(a: &str, b: &str) -> (r: bool)
    ensures
        r == (a@ == b@),
{
    let n = a.unicode_len();
    let m = b.unicode_len();
    if n != m {
        return false;
    }
    let mut i: usize = 0;
    while i < n
        invariant
            n == a@.len(),
            n == b@.len(),
            i <= n,
            forall|k: int| 0 <= k < i ==> a@[k] == b@[k],
        decreases n - i,
    {
        if a.get_char(i) != b.get_char(i) {
            return false;
        }
        i += 1;
    }
    assert(a@ =~= b@);
    true
}

/// The parts, in order, with `sep` between each two neighbours.
pub open spec fn join(parts: Seq<Seq<char>>, sep: Seq<char>) -> Seq<char>
    decreases parts.len(),
{
    if parts.len() == 0 {
        Seq::empty()
    } else if parts.len() == 1 {
        parts[0]
    } else {
        join(parts.drop_last(), sep) + sep + parts.last()
    }
}

/// The characters of each string in `v`.
pub open spec fn views(v: Seq<String>) -> Seq<Seq<char>> {
    v.map_values(|s: String| s@)
}

/// Joins `parts` with `sep` between each two neighbours (`[String]::join`).
pub fn join_strings(parts: &Vec<String>, sep: &str) -> (r: String)
    ensures
        r@ == join(views(parts@), sep@),
{
    let ghost all = views(parts@);
    let mut r = String::new();
    let n = parts.len();
    let mut i: usize = 0;
    while i < n
        invariant
            n == parts@.len(),
            all == views(parts@),
            i <= n,
            r@ =~= join(all.take(i as int), sep@),
        decreases n - i,
    {
        if i != 0 {
            r.append(sep);
        }
        r.append(parts[i].as_str());
        assert(all.take(i + 1).drop_last() =~= all.take(i as int));
        i += 1;
    }
    assert(all.take(n as int) =~= all);
    r
}

/// The number of times `c` occurs in `s`.
pub open spec fn occurrences(s: Seq<char>, c: char) -> nat
    decreases s.len(),
{
    if s.len() == 0 {
        0
    } else {
        occurrences(s.drop_last(), c) + if s.last() == c {
            1nat
        } else {
            0nat
        }
    }
}

pub broadcast proof fn lemma_occurrences_concat(a: Seq<char>, b: Seq<char>, c: char)
    ensures
        #[trigger] occurrences(a + b, c) == occurrences(a, c) + occurrences(b, c),
    decreases b.len(),
{
    if b.len() == 0 {
        assert(a + b =~= a);
    } else {
        lemma_occurrences_concat(a, b.drop_last(), c);
        assert((a + b).drop_last() =~= a + b.drop_last());
        assert((a + b).last() == b.last());
    }
}

/// In parts joined by a separator free of `c`, `c` occurs `k` times for each
/// part where each part holds it `k` times.
pub proof fn lemma_occurrences_join(parts: Seq<Seq<char>>, sep: Seq<char>, c: char, k: nat)
    requires
        occurrences(sep, c) == 0,
        forall|i: int| 0 <= i < parts.len() ==> occurrences(#[trigger] parts[i], c) == k,
    ensures
        occurrences(join(parts, sep), c) == k * parts.len(),
    decreases parts.len(),
{
    let n = parts.len();
    if n == 0 {
        assert(occurrences(Seq::<char>::empty(), c) == 0);
    } else if n == 1 {
        assert(occurrences(parts[0], c) == k);
    } else {
        let init = parts.drop_last();
        assert forall|i: int| 0 <= i < init.len() implies occurrences(#[trigger] init[i], c) == k by {
            assert(init[i] == parts[i]);
        }
        lemma_occurrences_join(init, sep, c, k);
        lemma_occurrences_concat(join(init, sep), sep, c);
        lemma_occurrences_concat(join(init, sep) + sep, parts.last(), c);
        assert(occurrences(parts[n - 1], c) == k);
        assert(k * (n - 1) + k == k * n) by (nonlinear_arith);
    }
}

/// `part` stands in `s` as a run of neighbouring characters.
pub open spec fn occurs_in(part: Seq<char>, s: Seq<char>) -> bool {
    exists|i: int| 0 <= i && i + part.len() <= s.len() && #[trigger] s.subrange(i, i + part.len()) == part
}

/// `x` stands in `pre + x + post`.
pub proof fn lemma_occurs_between(pre: Seq<char>, x: Seq<char>, post: Seq<char>)
    ensures
        occurs_in(x, pre + x + post),
{
    let s = pre + x + post;
    assert(s.subrange(pre.len() as int, (pre.len() + x.len()) as int) =~= x);
}

/// What stands in a part stands in any text that holds that part.
pub proof fn lemma_occurs_in_trans(a: Seq<char>, b: Seq<char>, c: Seq<char>)
    requires
        occurs_in(a, b),
        occurs_in(b, c),
    ensures
        occurs_in(a, c),
{
    let i = choose|i: int| 0 <= i && i + a.len() <= b.len() && #[trigger] b.subrange(i, i + a.len()) == a;
    let j = choose|j: int| 0 <= j && j + b.len() <= c.len() && #[trigger] c.subrange(j, j + b.len()) == b;
    assert forall|k: int| 0 <= k < a.len() implies c.subrange(j + i, j + i + a.len())[k] == a[k] by {
        assert(b.subrange(i, i + a.len())[k] == b[i + k]);
        assert(c.subrange(j, j + b.len())[i + k] == c[j + i + k]);
    }
    assert(c.subrange(j + i, j + i + a.len()) =~= a);
}

/// Each part stands in the parts joined by any separator.
pub proof fn lemma_occurs_in_join(parts: Seq<Seq<char>>, sep: Seq<char>, k: int)
    requires
        0 <= k < parts.len(),
    ensures
        occurs_in(parts[k], join(parts, sep)),
    decreases parts.len(),
{
    let n = parts.len();
    if n == 1 {
        lemma_occurs_between(Seq::empty(), parts[0], Seq::empty());
        assert(Seq::<char>::empty() + parts[0] + Seq::<char>::empty() =~= parts[0]);
    } else {
        let init = parts.drop_last();
        let head = join(init, sep);
        if k == n - 1 {
            lemma_occurs_between(head + sep, parts.last(), Seq::empty());
            assert(head + sep + parts.last() + Seq::<char>::empty() =~= join(parts, sep));
        } else {
            assert(init[k] == parts[k]);
            lemma_occurs_in_join(init, sep, k);
            lemma_occurs_between(Seq::empty(), head, sep + parts.last());
            assert(Seq::<char>::empty() + head + (sep + parts.last()) =~= join(parts, sep));
            lemma_occurs_in_trans(parts[k], head, join(parts, sep));
        }
    }
}

/// A text begins with each of its beginnings.
pub proof fn lemma_prefix_of_concat(a: Seq<char>, b: Seq<char>)
    ensures
        a.is_prefix_of(a + b),
{
    assert((a + b).subrange(0, a.len() as int) =~= a);
}

} // verus!
