//! Case conventions for renaming tables and columns, and the splitting of a
//! name into its words.

use vstd::prelude::*;
use crate::text::{
    alphabetic, is_alphabetic, is_lower, is_upper, join, join_strings, lower_char, lower_str, push_char,
    str_eq, to_ascii_lowercase, to_ascii_uppercase, to_lower_char, to_upper_char, upper_char, upper_str,
    views,
};

verus! {

/// A case convention that a table or column name can be rewritten in.
#[derive(Clone, Copy, Debug, PartialEq, Eq, Structural)]
pub enum Rename {
    Snake,
    UpperSnake,
    Kebab,
    UpperKebab,
    Pascal,
    Camel,
    Lower,
    Upper,
}

/// `c` separates words: a space, a hyphen or an underscore.
pub open spec fn is_separator(c: char) -> bool {
    c == ' ' || c == '-' || c == '_'
}

/// `a` and `b` are both alphabetic or both not, and both ASCII capitals or both not.
pub open spec fn same_class(a: char, b: char) -> bool {
    alphabetic(a) == alphabetic(b) && is_upper(a) == is_upper(b)
}

/// The number of characters at the front of `s` that are not separators and
/// are of the class of `c`.
pub open spec fn run_len(s: Seq<char>, c: char) -> nat
    decreases s.len(),
{
    if s.len() == 0 || is_separator(s[0]) || !same_class(s[0], c) {
        0
    } else {
        1 + run_len(s.drop_first(), c)
    }
}

pub proof fn lemma_run_len_bound(s: Seq<char>, c: char)
    ensures
        run_len(s, c) <= s.len(),
    decreases s.len(),
{
    if s.len() > 0 {
        lemma_run_len_bound(s.drop_first(), c);
    }
}

/// The words of `s`: the maximal runs of non-separator characters of one
/// class (alphabetic or not, ASCII capital or not), in order; separators
/// belong to no word.
pub open spec fn words(s: Seq<char>) -> Seq<Seq<char>>
    decreases s.len(),
{
    if s.len() == 0 {
        Seq::empty()
    } else if is_separator(s[0]) {
        words(s.drop_first())
    } else {
        let n = run_len(s, s[0]);
        proof {
            lemma_run_len_bound(s, s[0]);
        }
        seq![s.take(n as int)] + words(s.skip(n as int))
    }
}

/// Whether `c` continues a word whose first character is `c0`.
fn continues_word(c: char, c0: char) -> (r: bool)
    ensures
        r == (!is_separator(c) && same_class(c, c0)),
{
    if c == ' ' || c == '-' || c == '_' {
        return false;
    }
    let up = 'A' <= c && c <= 'Z';
    let up0 = 'A' <= c0 && c0 <= 'Z';
    up == up0 && is_alphabetic(c) == is_alphabetic(c0)
}

/// Splits `s` into its words.
pub fn split_words(s: &str) -> (r: Vec<String>)
    ensures
        views(r@) == words(s@),
{
    let n = s.unicode_len();
    let mut out: Vec<String> = Vec::new();
    let mut i: usize = 0;
    assert(s@.skip(0) =~= s@);
    assert(views(out@) + words(s@) =~= words(s@));
    while i < n
        invariant
            n == s@.len(),
            i <= n,
            words(s@) == views(out@) + words(s@.skip(i as int)),
        decreases n - i,
    {
        let c0 = s.get_char(i);
        if c0 == ' ' || c0 == '-' || c0 == '_' {
            assert(s@.skip(i as int).drop_first() =~= s@.skip(i + 1));
            i += 1;
        } else {
            let mut w = String::new();
            let mut j: usize = i;
            while j < n && continues_word(s.get_char(j), c0)
                invariant
                    n == s@.len(),
                    i <= j <= n,
                    c0 == s@[i as int],
                    w@ =~= s@.subrange(i as int, j as int),
                    run_len(s@.skip(i as int), c0) == (j - i) + run_len(s@.skip(j as int), c0),
                decreases n - j,
            {
                let c = s.get_char(j);
                push_char(&mut w, c);
                assert(s@.skip(j as int).drop_first() =~= s@.skip(j + 1));
                j += 1;
            }
            assert(run_len(s@.skip(j as int), c0) == 0);
            let ghost rest = s@.skip(i as int);
            assert(rest[0] == c0);
            assert(rest.take((j - i) as int) =~= s@.subrange(i as int, j as int));
            assert(rest.skip((j - i) as int) =~= s@.skip(j as int));
            assert(words(rest) == seq![w@] + words(s@.skip(j as int)));
            let ghost before = views(out@);
            out.push(w);
            assert(views(out@) =~= before.push(w@));
            i = j;
        }
    }
    assert(s@.skip(n as int) =~= Seq::<char>::empty());
    assert(views(out@) =~= words(s@));
    out
}

/// `w` with its first character an ASCII capital and the rest ASCII small letters.
pub open spec fn capitalize(w: Seq<char>) -> Seq<char> {
    if w.len() == 0 {
        w
    } else {
        seq![upper_char(w[0])] + lower_str(w.drop_first())
    }
}

/// `w` with its first character in ASCII upper case and the rest in lower case.
pub fn capitalized(w: &str) -> (r: String)
    ensures
        r@ == capitalize(w@),
{
    let n = w.unicode_len();
    let mut r = String::new();
    let mut i: usize = 0;
    while i < n
        invariant
            n == w@.len(),
            i <= n,
            i == 0 ==> r@.len() == 0,
            i > 0 ==> r@ =~= seq![upper_char(w@[0])] + lower_str(w@.subrange(1, i as int)),
        decreases n - i,
    {
        let c = w.get_char(i);
        if i == 0 {
            push_char(&mut r, to_upper_char(c));
        } else {
            push_char(&mut r, to_lower_char(c));
            assert(w@.subrange(1, i + 1) =~= w@.subrange(1, i as int).push(c));
        }
        i += 1;
    }
    if n > 0 {
        assert(w@.subrange(1, n as int) =~= w@.drop_first());
    } else {
        assert(r@ =~= w@);
    }
    r
}

impl Rename {
    /// The text put between two words.
    pub open spec fn spec_separator(self) -> Seq<char> {
        match self {
            Rename::Snake | Rename::UpperSnake => seq!['_'],
            Rename::Kebab | Rename::UpperKebab => seq!['-'],
            _ => Seq::empty(),
        }
    }

    /// The form a word takes; `first` tells whether it is the first word.
    pub open spec fn word_form(self, w: Seq<char>, first: bool) -> Seq<char> {
        match self {
            Rename::UpperSnake | Rename::UpperKebab | Rename::Upper => upper_str(w),
            Rename::Pascal => capitalize(w),
            Rename::Camel => if first { lower_str(w) } else { capitalize(w) },
            _ => lower_str(w),
        }
    }

    /// `s` rewritten in this convention: `Lower` and `Upper` change the case
    /// of every ASCII letter; the others put each word of `s` in its form and
    /// join the words with the convention's separator.
    pub open spec fn spec_apply(self, s: Seq<char>) -> Seq<char> {
        match self {
            Rename::Lower => lower_str(s),
            Rename::Upper => upper_str(s),
            _ => join(
                words(s).map(|i: int, w: Seq<char>| self.word_form(w, i == 0)),
                self.spec_separator(),
            ),
        }
    }

    fn separator(&self) -> (r: &'static str)
        ensures
            r@ == self.spec_separator(),
    {
        match self {
            Rename::Snake | Rename::UpperSnake => {
                proof {
                    reveal_strlit("_");
                }
                "_"
            },
            Rename::Kebab | Rename::UpperKebab => {
                proof {
                    reveal_strlit("-");
                }
                "-"
            },
            _ => {
                proof {
                    reveal_strlit("");
                }
                ""
            },
        }
    }

    fn convert_word(&self, w: &str, first: bool) -> (r: String)
        ensures
            r@ == self.word_form(w@, first),
    {
        match self {
            Rename::UpperSnake | Rename::UpperKebab | Rename::Upper => to_ascii_uppercase(w),
            Rename::Pascal => capitalized(w),
            Rename::Camel => if first {
                to_ascii_lowercase(w)
            } else {
                capitalized(w)
            },
            _ => to_ascii_lowercase(w),
        }
    }

    /// Rewrites `value` in this convention.
    pub fn apply(&self, value: &str) -> (r: String)
        ensures
            r@ == self.spec_apply(value@),
    {
        match self {
            Rename::Lower => to_ascii_lowercase(value),
            Rename::Upper => to_ascii_uppercase(value),
            _ => {
                let ws = split_words(value);
                let ghost target = words(value@).map(|i: int, w: Seq<char>| self.word_form(w, i == 0));
                let mut parts: Vec<String> = Vec::new();
                let n = ws.len();
                let mut i: usize = 0;
                while i < n
                    invariant
                        n == ws@.len(),
                        views(ws@) == words(value@),
                        target == words(value@).map(|i: int, w: Seq<char>| self.word_form(w, i == 0)),
                        i <= n,
                        views(parts@) =~= target.take(i as int),
                    decreases n - i,
                {
                    let part = self.convert_word(ws[i].as_str(), i == 0);
                    assert(ws@[i as int]@ == words(value@)[i as int]);
                    assert(target[i as int] == self.word_form(words(value@)[i as int], i == 0));
                    let ghost before = views(parts@);
                    parts.push(part);
                    assert(views(parts@) =~= before.push(part@));
                    assert(target.take(i + 1) =~= target.take(i as int).push(target[i as int]));
                    i += 1;
                }
                assert(target.take(n as int) =~= target);
                join_strings(&parts, self.separator())
            },
        }
    }
}

/// The convention that `s` names, if it names one.
pub open spec fn rename_named(s: Seq<char>) -> Option<Rename> {
    if s == "snake_case"@ {
        Some(Rename::Snake)
    } else if s == "UPPER_SNAKE_CASE"@ {
        Some(Rename::UpperSnake)
    } else if s == "kebab-case"@ {
        Some(Rename::Kebab)
    } else if s == "UPPER-KEBAB-CASE"@ {
        Some(Rename::UpperKebab)
    } else if s == "PascalCase"@ {
        Some(Rename::Pascal)
    } else if s == "camelCase"@ {
        Some(Rename::Camel)
    } else if s == "lower"@ {
        Some(Rename::Lower)
    } else if s == "UPPER"@ {
        Some(Rename::Upper)
    } else {
        None
    }
}

/// The message given for a name that is no convention.
pub open spec fn rename_hint() -> Seq<char> {
    "did you mean: `snake_case`, `UPPER_SNAKE_CASE`, `kebab-case`, `UPPER-KEBAB-CASE`, `camelCase`, `PascalCase`, `lower`, `UPPER`"@
}

impl Rename {
    /// The convention named `s`, or the list of the names when `s` is none of them.
    pub fn parse(s: &str) -> (r: Result<Rename, String>)
        ensures
            match r {
                Ok(v) => rename_named(s@) == Some(v),
                Err(e) => rename_named(s@).is_none() && e@ == rename_hint(),
            },
    {
        if str_eq(s, "snake_case") {
            Ok(Rename::Snake)
        } else if str_eq(s, "UPPER_SNAKE_CASE") {
            Ok(Rename::UpperSnake)
        } else if str_eq(s, "kebab-case") {
            Ok(Rename::Kebab)
        } else if str_eq(s, "UPPER-KEBAB-CASE") {
            Ok(Rename::UpperKebab)
        } else if str_eq(s, "PascalCase") {
            Ok(Rename::Pascal)
        } else if str_eq(s, "camelCase") {
            Ok(Rename::Camel)
        } else if str_eq(s, "lower") {
            Ok(Rename::Lower)
        } else if str_eq(s, "UPPER") {
            Ok(Rename::Upper)
        } else {
            Err(String::from_str(
                "did you mean: `snake_case`, `UPPER_SNAKE_CASE`, `kebab-case`, `UPPER-KEBAB-CASE`, `camelCase`, `PascalCase`, `lower`, `UPPER`",
            ))
        }
    }
}

impl std::str::FromStr for Rename {
    type Err = String;

    fn from_str(s: &str) -> (r: Result<Rename, String>)
        ensures
            match r {
                Ok(v) => rename_named(s@) == Some(v),
                Err(e) => rename_named(s@).is_none() && e@ == rename_hint(),
            },
    {
        Rename::parse(s)
    }
}

/// A word: not empty, without a separator, and every character of the
/// first one's class.
pub open spec fn is_word(w: Seq<char>) -> bool {
    w.len() > 0 && forall|j: int| 0 <= j < w.len() ==> !is_separator(#[trigger] w[j]) && same_class(w[j], w[0])
}

/// `s` is made of ASCII characters.
pub open spec fn is_ascii(s: Seq<char>) -> bool {
    forall|j: int| 0 <= j < s.len() ==> (#[trigger] s[j] as u32) < 128
}

proof fn lemma_run_prefix(s: Seq<char>, c: char)
    ensures
        forall|j: int| 0 <= j < run_len(s, c) ==> !is_separator(#[trigger] s[j]) && same_class(s[j], c),
    decreases s.len(),
{
    if s.len() > 0 && run_len(s, c) > 0 {
        let t = s.drop_first();
        lemma_run_prefix(t, c);
        lemma_run_len_bound(s, c);
        assert forall|j: int| 0 <= j < run_len(s, c) implies !is_separator(#[trigger] s[j]) && same_class(s[j], c) by {
            if j > 0 {
                assert(s[j] == t[j - 1]);
            }
        }
    }
}

proof fn lemma_run_full(w: Seq<char>, c: char)
    requires
        forall|j: int| 0 <= j < w.len() ==> !is_separator(#[trigger] w[j]) && same_class(w[j], c),
    ensures
        run_len(w, c) == w.len(),
    decreases w.len(),
{
    if w.len() > 0 {
        let t = w.drop_first();
        assert forall|j: int| 0 <= j < t.len() implies !is_separator(#[trigger] t[j]) && same_class(t[j], c) by {
            assert(t[j] == w[j + 1]);
        }
        lemma_run_full(t, c);
    }
}

/// Each word of `s` is a word, made of characters of `s`.
pub proof fn lemma_words_are_words(s: Seq<char>)
    ensures
        forall|i: int| 0 <= i < words(s).len() ==> is_word(#[trigger] words(s)[i]),
        is_ascii(s) ==> forall|i: int| 0 <= i < words(s).len() ==> is_ascii(#[trigger] words(s)[i]),
    decreases s.len(),
{
    if s.len() > 0 {
        if is_separator(s[0]) {
            let t = s.drop_first();
            lemma_words_are_words(t);
            assert(words(s) == words(t));
            if is_ascii(s) {
                assert forall|j: int| 0 <= j < t.len() implies (#[trigger] t[j] as u32) < 128 by {
                    assert(t[j] == s[j + 1]);
                }
                assert(is_ascii(t));
            }
        } else {
            let n = run_len(s, s[0]) as int;
            lemma_run_len_bound(s, s[0]);
            lemma_run_prefix(s, s[0]);
            let rest = s.skip(n);
            lemma_words_are_words(rest);
            let w = s.take(n);
            assert(is_word(w)) by {
                assert forall|j: int| 0 <= j < w.len() implies !is_separator(#[trigger] w[j]) && same_class(w[j], w[0]) by {
                    assert(w[j] == s[j]);
                }
            }
            let ws = words(s);
            assert(ws == seq![w] + words(rest));
            assert forall|i: int| 0 <= i < ws.len() implies is_word(#[trigger] ws[i]) by {
                if i > 0 {
                    assert(ws[i] == words(rest)[i - 1]);
                }
            }
            if is_ascii(s) {
                assert forall|j: int| 0 <= j < rest.len() implies (#[trigger] rest[j] as u32) < 128 by {
                    assert(rest[j] == s[j + n]);
                }
                assert(is_ascii(rest));
                assert forall|j: int| 0 <= j < w.len() implies (#[trigger] w[j] as u32) < 128 by {
                    assert(w[j] == s[j]);
                }
                assert(is_ascii(w));
                assert forall|i: int| 0 <= i < ws.len() implies is_ascii(#[trigger] ws[i]) by {
                    if i > 0 {
                        assert(ws[i] == words(rest)[i - 1]);
                    }
                }
            }
        }
    }
}

proof fn lemma_word_words(w: Seq<char>)
    requires
        is_word(w),
    ensures
        words(w) == seq![w],
{
    lemma_run_full(w, w[0]);
    assert(w.take(w.len() as int) =~= w);
    assert(w.skip(w.len() as int) =~= Seq::<char>::empty());
    assert(words(w.skip(w.len() as int)) == Seq::<Seq<char>>::empty());
    assert(words(w) =~= seq![w]);
}

proof fn lemma_run_sep(a: Seq<char>, d: char, b: Seq<char>, c: char)
    requires
        is_separator(d),
    ensures
        run_len(a + seq![d] + b, c) == run_len(a, c),
    decreases a.len(),
{
    let x = a + seq![d] + b;
    if a.len() == 0 {
        assert(x[0] == d);
    } else {
        assert(x[0] == a[0]);
        assert(x.drop_first() =~= a.drop_first() + seq![d] + b);
        lemma_run_sep(a.drop_first(), d, b, c);
    }
}

/// A separator ends the words before it.
proof fn lemma_words_sep(a: Seq<char>, d: char, b: Seq<char>)
    requires
        is_separator(d),
    ensures
        words(a + seq![d] + b) == words(a) + words(b),
    decreases a.len(),
{
    let x = a + seq![d] + b;
    if a.len() == 0 {
        assert(x[0] == d);
        assert(x.drop_first() =~= b);
        assert(words(a) =~= Seq::<Seq<char>>::empty());
        assert(words(x) =~= words(a) + words(b));
    } else if is_separator(a[0]) {
        assert(x[0] == a[0]);
        assert(x.drop_first() =~= a.drop_first() + seq![d] + b);
        lemma_words_sep(a.drop_first(), d, b);
    } else {
        assert(x[0] == a[0]);
        let n = run_len(a, a[0]) as int;
        lemma_run_sep(a, d, b, a[0]);
        lemma_run_len_bound(a, a[0]);
        assert(x.take(n) =~= a.take(n));
        assert(x.skip(n) =~= a.skip(n) + seq![d] + b);
        lemma_words_sep(a.skip(n), d, b);
        assert(words(x) =~= words(a) + words(b));
    }
}

/// Words joined by a separator split into those words again.
proof fn lemma_words_join(ws: Seq<Seq<char>>, d: char)
    requires
        is_separator(d),
        forall|i: int| 0 <= i < ws.len() ==> is_word(#[trigger] ws[i]),
    ensures
        words(crate::text::join(ws, seq![d])) == ws,
    decreases ws.len(),
{
    if ws.len() == 0 {
        assert(words(Seq::<char>::empty()) =~= ws);
    } else if ws.len() == 1 {
        lemma_word_words(ws[0]);
        assert(ws =~= seq![ws[0]]);
    } else {
        let init = ws.drop_last();
        assert forall|i: int| 0 <= i < init.len() implies is_word(#[trigger] init[i]) by {
            assert(init[i] == ws[i]);
        }
        lemma_words_join(init, d);
        lemma_words_sep(crate::text::join(init, seq![d]), d, ws.last());
        lemma_word_words(ws.last());
        assert(ws =~= init + seq![ws.last()]);
    }
}

proof fn lemma_lower_char(c: char)
    ensures
        lower_char(lower_char(c)) == lower_char(c),
        !is_separator(c) ==> !is_separator(lower_char(c)),
        is_upper(c) ==> is_lower(lower_char(c)) && (lower_char(c) as u32) < 128,
        !is_upper(c) ==> lower_char(c) == c,
{
}

proof fn lemma_upper_char(c: char)
    ensures
        upper_char(upper_char(c)) == upper_char(c),
        !is_separator(c) ==> !is_separator(upper_char(c)),
        is_lower(c) ==> is_upper(upper_char(c)) && (upper_char(c) as u32) < 128,
        !is_lower(c) ==> upper_char(c) == c,
{
}

proof fn lemma_lower_word(w: Seq<char>)
    requires
        is_word(w),
    ensures
        is_word(lower_str(w)),
        lower_str(lower_str(w)) == lower_str(w),
{
    let l = lower_str(w);
    assert forall|j: int| 0 <= j < w.len() implies l[j] == lower_char(#[trigger] w[j]) by {}
    assert forall|j: int| 0 <= j < l.len() implies !is_separator(#[trigger] l[j]) && same_class(l[j], l[0]) by {
        lemma_lower_char(w[j]);
        lemma_lower_char(w[0]);
    }
    assert forall|j: int| 0 <= j < l.len() implies lower_str(l)[j] == l[j] by {
        lemma_lower_char(w[j]);
    }
    assert(lower_str(l) =~= l);
}

proof fn lemma_upper_word(w: Seq<char>)
    requires
        is_word(w),
        is_ascii(w),
    ensures
        is_word(upper_str(w)),
        upper_str(upper_str(w)) == upper_str(w),
{
    let u = upper_str(w);
    assert forall|j: int| 0 <= j < u.len() implies !is_separator(#[trigger] u[j]) && same_class(u[j], u[0]) by {
        lemma_upper_char(w[j]);
        lemma_upper_char(w[0]);
        assert((w[j] as u32) < 128);
        assert((w[0] as u32) < 128);
    }
    assert forall|j: int| 0 <= j < u.len() implies upper_str(u)[j] == u[j] by {
        lemma_upper_char(w[j]);
    }
    assert(upper_str(u) =~= u);
}

/// Rewriting a name a second time in the same convention changes nothing,
/// for the conventions that keep the words apart or only change case; the
/// upper-case word conventions need an ASCII name (an ASCII small letter
/// next to a small letter beyond ASCII is one word before and two after).
pub proof fn law_apply_idempotent(r: Rename, s: Seq<char>)
    requires
        r is Lower || r is Upper || r is Snake || r is Kebab || ((r is UpperSnake || r is UpperKebab)
            && is_ascii(s)),
    ensures
        r.spec_apply(r.spec_apply(s)) == r.spec_apply(s),
{
    match r {
        Rename::Lower => {
            assert forall|j: int| 0 <= j < s.len() implies lower_str(lower_str(s))[j] == lower_str(s)[j] by {
                lemma_lower_char(s[j]);
            }
            assert(lower_str(lower_str(s)) =~= lower_str(s));
        },
        Rename::Upper => {
            assert forall|j: int| 0 <= j < s.len() implies upper_str(upper_str(s))[j] == upper_str(s)[j] by {
                lemma_upper_char(s[j]);
            }
            assert(upper_str(upper_str(s)) =~= upper_str(s));
        },
        _ => {
            let ws = words(s);
            let ls = ws.map(|i: int, w: Seq<char>| r.word_form(w, i == 0));
            lemma_words_are_words(s);
            let d = if r is Snake || r is UpperSnake { '_' } else { '-' };
            assert(r.spec_separator() == seq![d]);
            assert forall|i: int| 0 <= i < ls.len() implies is_word(#[trigger] ls[i]) && r.word_form(ls[i], i == 0)
                == ls[i] by {
                assert(is_word(ws[i]));
                if r is Snake || r is Kebab {
                    lemma_lower_word(ws[i]);
                } else {
                    assert(is_ascii(ws[i]));
                    lemma_upper_word(ws[i]);
                }
            }
            lemma_words_join(ls, d);
            let t = r.spec_apply(s);
            assert(t == crate::text::join(ls, seq![d]));
            assert(words(t) == ls);
            assert(words(t).map(|i: int, w: Seq<char>| r.word_form(w, i == 0)) =~= ls);
        },
    }
}

/// `s` with its separators taken out.
pub open spec fn strip_separators(s: Seq<char>) -> Seq<char>
    decreases s.len(),
{
    if s.len() == 0 {
        Seq::empty()
    } else if is_separator(s[0]) {
        strip_separators(s.drop_first())
    } else {
        seq![s[0]] + strip_separators(s.drop_first())
    }
}

proof fn lemma_strip_prefix(s: Seq<char>, n: int)
    requires
        0 <= n <= s.len(),
        forall|j: int| 0 <= j < n ==> !is_separator(#[trigger] s[j]),
    ensures
        strip_separators(s) == s.take(n) + strip_separators(s.skip(n)),
    decreases n,
{
    if n == 0 {
        assert(s.skip(0) =~= s);
        assert(s.take(0) + strip_separators(s) =~= strip_separators(s));
    } else {
        let t = s.drop_first();
        assert forall|j: int| 0 <= j < n - 1 implies !is_separator(#[trigger] t[j]) by {
            assert(t[j] == s[j + 1]);
        }
        lemma_strip_prefix(t, n - 1);
        assert(!is_separator(s[0]));
        assert(t.skip(n - 1) =~= s.skip(n));
        assert(seq![s[0]] + t.take(n - 1) =~= s.take(n));
        assert(seq![s[0]] + (t.take(n - 1) + strip_separators(t.skip(n - 1))) =~= s.take(n)
            + strip_separators(s.skip(n)));
    }
}

/// The words of a name, one after the other, give the name without its
/// separators, and a name has no more words than characters.
pub proof fn law_words_reassemble(s: Seq<char>)
    ensures
        words(s).flatten() == strip_separators(s),
        words(s).len() <= s.len(),
    decreases s.len(),
{
    if s.len() > 0 {
        let t = s.drop_first();
        if is_separator(s[0]) {
            law_words_reassemble(t);
        } else {
            let n = run_len(s, s[0]) as int;
            lemma_run_len_bound(s, s[0]);
            lemma_run_prefix(s, s[0]);
            let rest = s.skip(n);
            law_words_reassemble(rest);
            let ws = words(s);
            assert(ws == seq![s.take(n)] + words(rest));
            assert(ws.first() == s.take(n));
            assert(ws.drop_first() =~= words(rest));
            lemma_strip_prefix(s, n);
        }
    }
}

/// `s` with each underscore made a hyphen.
pub open spec fn underscores_to_hyphens(s: Seq<char>) -> Seq<char> {
    s.map_values(|c: char| if c == '_' { '-' } else { c })
}

proof fn lemma_upper_join(ws: Seq<Seq<char>>, sep: Seq<char>)
    ensures
        upper_str(join(ws, sep)) == join(ws.map_values(|w: Seq<char>| upper_str(w)), upper_str(sep)),
    decreases ws.len(),
{
    let us = ws.map_values(|w: Seq<char>| upper_str(w));
    if ws.len() == 0 {
        assert(upper_str(Seq::<char>::empty()) =~= Seq::<char>::empty());
    } else if ws.len() == 1 {
    } else {
        lemma_upper_join(ws.drop_last(), sep);
        assert(ws.drop_last().map_values(|w: Seq<char>| upper_str(w)) =~= us.drop_last());
        let a = join(ws.drop_last(), sep);
        assert(upper_str(a + sep + ws.last()) =~= upper_str(a) + upper_str(sep) + upper_str(ws.last()));
    }
}

proof fn lemma_hyphen_join(ws: Seq<Seq<char>>, sep: Seq<char>)
    ensures
        underscores_to_hyphens(join(ws, sep)) == join(
            ws.map_values(|w: Seq<char>| underscores_to_hyphens(w)),
            underscores_to_hyphens(sep),
        ),
    decreases ws.len(),
{
    let hs = ws.map_values(|w: Seq<char>| underscores_to_hyphens(w));
    if ws.len() == 0 {
        assert(underscores_to_hyphens(Seq::<char>::empty()) =~= Seq::<char>::empty());
    } else if ws.len() == 1 {
    } else {
        lemma_hyphen_join(ws.drop_last(), sep);
        assert(ws.drop_last().map_values(|w: Seq<char>| underscores_to_hyphens(w)) =~= hs.drop_last());
        let a = join(ws.drop_last(), sep);
        assert(underscores_to_hyphens(a + sep + ws.last()) =~= underscores_to_hyphens(a)
            + underscores_to_hyphens(sep) + underscores_to_hyphens(ws.last()));
    }
}

/// How the word conventions relate: `UPPER_SNAKE_CASE` is `snake_case` in
/// upper case, `kebab-case` is `snake_case` with hyphens for underscores,
/// and `UPPER-KEBAB-CASE` is `kebab-case` in upper case.
pub proof fn law_convention_relations(s: Seq<char>)
    ensures
        Rename::UpperSnake.spec_apply(s) == upper_str(Rename::Snake.spec_apply(s)),
        Rename::Kebab.spec_apply(s) == underscores_to_hyphens(Rename::Snake.spec_apply(s)),
        Rename::UpperKebab.spec_apply(s) == upper_str(Rename::Kebab.spec_apply(s)),
{
    let ws = words(s);
    lemma_words_are_words(s);
    let ls = ws.map(|i: int, w: Seq<char>| Rename::Snake.word_form(w, i == 0));
    let ks = ws.map(|i: int, w: Seq<char>| Rename::Kebab.word_form(w, i == 0));
    let us = ws.map(|i: int, w: Seq<char>| Rename::UpperSnake.word_form(w, i == 0));
    let uks = ws.map(|i: int, w: Seq<char>| Rename::UpperKebab.word_form(w, i == 0));
    assert(ks =~= ls);
    assert(uks =~= us);
    assert forall|i: int| 0 <= i < ws.len() implies upper_str(#[trigger] ls[i]) == us[i] by {
        assert forall|j: int| 0 <= j < ws[i].len() implies upper_char(lower_char(#[trigger] ws[i][j])) == upper_char(
            ws[i][j],
        ) by {}
        assert(upper_str(ls[i]) =~= us[i]);
    }
    assert(ls.map_values(|w: Seq<char>| upper_str(w)) =~= us);
    assert forall|i: int| 0 <= i < ws.len() implies underscores_to_hyphens(#[trigger] ls[i]) == ls[i] by {
        assert(is_word(ws[i]));
        assert forall|j: int| 0 <= j < ws[i].len() implies lower_char(#[trigger] ws[i][j]) != '_' by {
            lemma_lower_char(ws[i][j]);
        }
        assert(underscores_to_hyphens(ls[i]) =~= ls[i]);
    }
    assert(ls.map_values(|w: Seq<char>| underscores_to_hyphens(w)) =~= ls);
    assert(upper_str(seq!['_']) =~= seq!['_']);
    assert(upper_str(seq!['-']) =~= seq!['-']);
    assert(underscores_to_hyphens(seq!['_']) =~= seq!['-']);
    lemma_upper_join(ls, seq!['_']);
    lemma_upper_join(ls, seq!['-']);
    lemma_hyphen_join(ls, seq!['_']);
}

} // verus!
