//! `{{PLACEHOLDER}}` substitution shared by every widget renderer, with a
//! guard that refuses to hand back text in which a placeholder-shaped token
//! survived substitution.

use vstd::prelude::*;
use crate::text::{chars_of, matches_at, occurs_at, push_chars, push_str, string_from_chars};

verus! {

/// Errors of [`render`].
#[derive(Debug, PartialEq, Eq)]
pub enum TemplateError {
    /// The output still holds this `{{TOKEN}}`-shaped text.
    UnresolvedPlaceholder(String),
}

impl TemplateError {
    /// The message of the error, as shown to the user.
    pub fn message(&self) -> (m: String)
        ensures
            m@ == template_error_message(*self),
    {
        match self {
            TemplateError::UnresolvedPlaceholder(t) => {
                let mut out: Vec<char> = Vec::new();
                push_str(
                    &mut out,
                    "template still has unresolved placeholders after substitution: ",
                );
                push_str(&mut out, t.as_str());
                string_from_chars(&out)
            },
        }
    }
}

/// The message of a template error.
pub open spec fn template_error_message(e: TemplateError) -> Seq<char> {
    match e {
        TemplateError::UnresolvedPlaceholder(t) =>
            "template still has unresolved placeholders after substitution: "@ + t@,
    }
}

/// `s` with every non-overlapping occurrence of `pat` replaced by `rep`,
/// scanning left to right (`str::replace` for a non-empty pattern).
pub open spec fn replace_all(s: Seq<char>, pat: Seq<char>, rep: Seq<char>) -> Seq<char>
    decreases s.len(),
{
    if pat.len() == 0 || s.len() < pat.len() {
        s
    } else if s.take(pat.len() as int) == pat {
        rep + replace_all(s.skip(pat.len() as int), pat, rep)
    } else {
        seq![s[0]] + replace_all(s.skip(1), pat, rep)
    }
}

/// The placeholder written for `key`: `{{` + key + `}}`.
pub open spec fn placeholder(key: Seq<char>) -> Seq<char> {
    seq!['{', '{'] + key + seq!['}', '}']
}

/// `template` after substituting each `(key, value)` pair in turn.
pub open spec fn substitute(template: Seq<char>, values: Seq<(Seq<char>, Seq<char>)>) -> Seq<
    char,
>
    decreases values.len(),
{
    if values.len() == 0 {
        template
    } else {
        substitute(
            replace_all(template, placeholder(values[0].0), values[0].1),
            values.drop_first(),
        )
    }
}

/// A character allowed in a placeholder key: `A`-`Z` or `_`.
pub open spec fn is_key_char(c: char) -> bool {
    ('A' <= c && c <= 'Z') || c == '_'
}

/// A non-empty run of key characters.
pub open spec fn is_key(k: Seq<char>) -> bool {
    k.len() > 0 && forall|i: int| 0 <= i < k.len() ==> is_key_char(#[trigger] k[i])
}

/// The end of the run of key characters of `s` that starts at `p`.
pub open spec fn key_run_end(s: Seq<char>, p: int) -> int
    decreases s.len() - p,
{
    if p < 0 || p >= s.len() || !is_key_char(s[p]) {
        p
    } else {
        key_run_end(s, p + 1)
    }
}

/// `s[i..j]` is `{{`, then a key, then `}}`.
pub open spec fn token_shape(s: Seq<char>, i: int, j: int) -> bool {
    &&& occurs_at(s, seq!['{', '{'], i)
    &&& i + 2 <= j - 2
    &&& is_key(s.subrange(i + 2, j - 2))
    &&& occurs_at(s, seq!['}', '}'], j - 2)
}

/// The end of the `{{TOKEN}}`-shaped span starting at `i`, if one does: the
/// key runs from `i + 2` up to the first character that is not a key
/// character, and `}}` must follow right there.
pub open spec fn token_end(s: Seq<char>, i: int) -> Option<int> {
    let k = key_run_end(s, i + 2);
    if occurs_at(s, seq!['{', '{'], i) && k > i + 2 && occurs_at(s, seq!['}', '}'], k) {
        Some(k + 2)
    } else {
        None
    }
}

/// The leftmost `{{TOKEN}}`-shaped span `(start, end)` starting at or after
/// `from`: every position is tried in turn.
pub open spec fn token_from(s: Seq<char>, from: int) -> Option<(int, int)>
    decreases s.len() - from,
{
    if from < 0 || from >= s.len() {
        None
    } else {
        match token_end(s, from) {
            Some(j) => Some((from, j)),
            None => token_from(s, from + 1),
        }
    }
}

/// The leftover placeholder-shaped token of `s`, if any: its leftmost
/// `{{TOKEN}}`-shaped substring.
pub open spec fn leftover_token(s: Seq<char>) -> Option<Seq<char>> {
    match token_from(s, 0) {
        None => None,
        Some((a, b)) => Some(s.subrange(a, b)),
    }
}

proof fn lemma_key_run_end(s: Seq<char>, p: int)
    requires
        0 <= p <= s.len(),
    ensures
        p <= key_run_end(s, p) <= s.len(),
        forall|q: int| p <= q < key_run_end(s, p) ==> is_key_char(#[trigger] s[q]),
        key_run_end(s, p) < s.len() ==> !is_key_char(s[key_run_end(s, p)]),
    decreases s.len() - p,
{
    if p < s.len() && is_key_char(s[p]) {
        lemma_key_run_end(s, p + 1);
    }
}

/// A span starting at `i` has the token shape exactly when it is the span
/// [`token_end`] finds there.
proof fn lemma_token_end(s: Seq<char>, i: int)
    requires
        0 <= i,
    ensures
        forall|j: int| token_shape(s, i, j) <==> token_end(s, i) == Some(j),
{
    if i + 2 <= s.len() {
        lemma_key_run_end(s, i + 2);
        let k = key_run_end(s, i + 2);
        assert forall|j: int| token_shape(s, i, j) implies token_end(s, i) == Some(j) by {
            let key = s.subrange(i + 2, j - 2);
            assert(s.subrange(j - 2, j)[0] == s[j - 2]);
            assert(!is_key_char(s[j - 2]));
            assert forall|q: int| i + 2 <= q < j - 2 implies is_key_char(#[trigger] s[q]) by {
                assert(key[q - (i + 2)] == s[q]);
            }
            if k < j - 2 {
                assert(is_key_char(s[k]));
            }
            if k > j - 2 {
                assert(is_key_char(s[j - 2]));
            }
        }
        if let Some(j) = token_end(s, i) {
            let key = s.subrange(i + 2, j - 2);
            assert forall|q: int| 0 <= q < key.len() implies is_key_char(#[trigger] key[q]) by {
                assert(key[q] == s[q + i + 2]);
            }
        }
    }
}

/// [`token_from`] finds the leftmost token-shaped span at or after `from`.
pub proof fn lemma_token_from_is_leftmost(s: Seq<char>, from: int)
    requires
        0 <= from,
    ensures
        token_from(s, from) matches Some((a, b)) ==> {
            &&& from <= a
            &&& token_shape(s, a, b)
            &&& forall|i: int, j: int| from <= i < a ==> !token_shape(s, i, j)
        },
        token_from(s, from) is None ==> forall|i: int, j: int| from <= i ==> !token_shape(
            s,
            i,
            j,
        ),
    decreases s.len() - from,
{
    lemma_token_end(s, from);
    if from < s.len() {
        if token_end(s, from) is None {
            lemma_token_from_is_leftmost(s, from + 1);
        }
    } else {
        assert forall|i: int, j: int| from <= i implies !token_shape(s, i, j) by {
        }
    }
}

/// The end of the run of key characters starting at `p`.
fn key_run_end_exec(s: &Vec<char>, p: usize) -> (k: usize)
    requires
        p <= s.len(),
    ensures
        k == key_run_end(s@, p as int),
{
    let mut k: usize = p;
    while k < s.len() && (('A' <= s[k] && s[k] <= 'Z') || s[k] == '_')
        invariant
            p <= k <= s.len(),
            key_run_end(s@, p as int) == key_run_end(s@, k as int),
        decreases s.len() - k,
    {
        k = k + 1;
    }
    k
}

/// The span of the leftmost `{{TOKEN}}`-shaped substring.
fn placeholder_span(s: &Vec<char>) -> (r: Option<(usize, usize)>)
    ensures
        r matches Some((a, b)) ==> token_from(s@, 0) == Some((a as int, b as int)) && a <= b
            <= s.len(),
        r is None ==> token_from(s@, 0) is None,
{
    let mut open: Vec<char> = Vec::new();
    open.push('{');
    open.push('{');
    let mut close: Vec<char> = Vec::new();
    close.push('}');
    close.push('}');
    assert(open@ == seq!['{', '{']);
    assert(close@ == seq!['}', '}']);
    let mut i: usize = 0;
    while i < s.len()
        invariant
            i <= s.len(),
            open@ == seq!['{', '{'],
            close@ == seq!['}', '}'],
            token_from(s@, 0) == token_from(s@, i as int),
        decreases s.len() - i,
    {
        if matches_at(s, &open, i) {
            let k = key_run_end_exec(s, i + 2);
            if k > i + 2 && matches_at(s, &close, k) {
                return Some((i, k + 2));
            }
        }
        i = i + 1;
    }
    None
}

/// The executable `str::replace` for a non-empty pattern.
pub fn replace(s: &Vec<char>, pat: &Vec<char>, rep: &Vec<char>) -> (out: Vec<char>)
    requires
        pat.len() > 0,
    ensures
        out@ == replace_all(s@, pat@, rep@),
{
    let mut out: Vec<char> = Vec::new();
    let mut i: usize = 0;
    assert(s@.skip(0) == s@);
    while i < s.len()
        invariant
            i <= s.len(),
            pat.len() > 0,
            replace_all(s@, pat@, rep@) == out@ + replace_all(s@.skip(i as int), pat@, rep@),
        decreases s.len() - i,
    {
        let ghost rest = s@.skip(i as int);
        if matches_at(s, pat, i) {
            proof {
                assert(rest.take(pat@.len() as int) == s@.subrange(i as int, i + pat@.len()));
                assert(rest.skip(pat@.len() as int) == s@.skip(i + pat@.len()));
            }
            push_chars(&mut out, rep);
            i = i + pat.len();
        } else {
            proof {
                if rest.len() >= pat@.len() {
                    assert(rest.take(pat@.len() as int) == s@.subrange(i as int, i + pat@.len()));
                    assert(rest.skip(1) == s@.skip(i + 1));
                } else {
                    assert(replace_all(rest, pat@, rep@) == rest);
                    assert(rest == seq![s@[i as int]] + s@.skip(i + 1));
                    lemma_replace_short(s@.skip(i + 1), pat@, rep@);
                }
            }
            out.push(s[i]);
            i = i + 1;
        }
    }
    assert(s@.skip(s@.len() as int) == Seq::<char>::empty());
    out
}

proof fn lemma_replace_short(s: Seq<char>, pat: Seq<char>, rep: Seq<char>)
    requires
        s.len() < pat.len(),
    ensures
        replace_all(s, pat, rep) == s,
{
}

/// Replacing a pattern that does not occur leaves the text as it is.
proof fn lemma_replace_absent(s: Seq<char>, pat: Seq<char>, rep: Seq<char>)
    requires
        pat.len() > 0,
        forall|i: int| !occurs_at(s, pat, i),
    ensures
        replace_all(s, pat, rep) == s,
    decreases s.len(),
{
    if s.len() >= pat.len() {
        assert(!occurs_at(s, pat, 0));
        assert(s.take(pat.len() as int) =~= s.subrange(0, pat.len() as int));
        let t = s.skip(1);
        assert forall|i: int| !occurs_at(t, pat, i) by {
            if occurs_at(t, pat, i) {
                assert(t.subrange(i, i + pat.len()) =~= s.subrange(i + 1, i + 1 + pat.len()));
                assert(occurs_at(s, pat, i + 1));
            }
        }
        lemma_replace_absent(t, pat, rep);
        assert(seq![s[0]] + t =~= s);
    }
}

/// A text without `{` holds no placeholder: substituting leaves it as it is.
pub proof fn lemma_substitute_brace_free(t: Seq<char>, vs: Seq<(Seq<char>, Seq<char>)>)
    requires
        forall|i: int| 0 <= i < t.len() ==> t[i] != '{',
    ensures
        substitute(t, vs) == t,
    decreases vs.len(),
{
    if vs.len() > 0 {
        let p = placeholder(vs[0].0);
        assert forall|i: int| !occurs_at(t, p, i) by {
            if occurs_at(t, p, i) {
                assert(t.subrange(i, i + p.len())[0] == t[i]);
            }
        }
        lemma_replace_absent(t, p, vs[0].1);
        lemma_substitute_brace_free(t, vs.drop_first());
    }
}

/// The placeholder of one key holds no placeholder of another key.
proof fn lemma_placeholder_absent(k: Seq<char>, k2: Seq<char>)
    requires
        is_key(k),
        is_key(k2),
        k != k2,
    ensures
        forall|i: int| !occurs_at(placeholder(k), placeholder(k2), i),
{
    let p = placeholder(k);
    let q = placeholder(k2);
    assert forall|i: int| !occurs_at(p, q, i) by {
        if occurs_at(p, q, i) {
            let w = p.subrange(i, i + q.len());
            assert(w[0] == p[i] && w[1] == p[i + 1]);
            assert(q[0] == '{' && q[1] == '{');
            if i >= 2 {
                if i < k.len() + 2 {
                    assert(p[i] == k[i - 2]);
                    assert(is_key_char(k[i - 2]));
                } else {
                    assert(p[i] == '}');
                }
            } else if i == 1 {
                assert(p[2] == k[0]);
                assert(is_key_char(k[0]));
            } else {
                let m: int = k2.len() as int + 2;
                assert(q[m] == '}');
                assert(w[m] == p[m]);
                if k2.len() < k.len() {
                    assert(p[m] == k[k2.len() as int]);
                    assert(is_key_char(k[k2.len() as int]));
                }
                assert(k2.len() == k.len());
                assert forall|j: int| 0 <= j < k.len() implies k[j] == k2[j] by {
                    assert(w[j + 2] == p[j + 2]);
                    assert(p[j + 2] == k[j]);
                    assert(q[j + 2] == k2[j]);
                }
                assert(k =~= k2);
            }
        }
    }
}

/// A template made of the placeholder of one key comes out as that key's
/// value, when no key substituted before it is the same key and the value
/// holds no `{`.
pub proof fn lemma_substitute_lone_placeholder(vs: Seq<(Seq<char>, Seq<char>)>, j: int)
    requires
        0 <= j < vs.len(),
        forall|i: int| 0 <= i < vs.len() ==> is_key(#[trigger] vs[i].0),
        forall|i: int| 0 <= i < j ==> #[trigger] vs[i].0 != vs[j].0,
        forall|i: int| 0 <= i < vs[j].1.len() ==> vs[j].1[i] != '{',
    ensures
        substitute(placeholder(vs[j].0), vs) == vs[j].1,
    decreases j,
{
    let p = placeholder(vs[j].0);
    if j == 0 {
        assert(p.take(p.len() as int) =~= p);
        assert(p.skip(p.len() as int) =~= Seq::<char>::empty());
        assert(replace_all(Seq::<char>::empty(), p, vs[0].1) == Seq::<char>::empty());
        assert(replace_all(p, p, vs[0].1) =~= vs[0].1);
        lemma_substitute_brace_free(vs[0].1, vs.drop_first());
    } else {
        assert(is_key(vs[0].0));
        assert(vs[0].0 != vs[j].0);
        lemma_placeholder_absent(vs[j].0, vs[0].0);
        lemma_replace_absent(p, placeholder(vs[0].0), vs[0].1);
        let rest = vs.drop_first();
        assert(rest[j - 1] == vs[j]);
        assert forall|i: int| 0 <= i < rest.len() implies is_key(#[trigger] rest[i].0) by {
            assert(rest[i] == vs[i + 1]);
        }
        assert forall|i: int| 0 <= i < j - 1 implies #[trigger] rest[i].0 != rest[j - 1].0 by {
            assert(rest[i] == vs[i + 1]);
        }
        lemma_substitute_lone_placeholder(rest, j - 1);
    }
}

/// Replaces every `{{KEY}}` in `template` with its value from `values`, in
/// order, then fails with [`TemplateError::UnresolvedPlaceholder`] if any
/// `{{TOKEN}}`-shaped text (token of `A`-`Z` and `_`) survived.
pub fn render(template: &str, values: &[(&str, &str)]) -> (r: Result<String, TemplateError>)
    ensures
        ({
            let out = substitute(template@, values@.map_values(|kv: (&str, &str)| (kv.0@, kv.1@)));
            match r {
                Ok(s) => s@ == out && leftover_token(out) is None,
                Err(TemplateError::UnresolvedPlaceholder(t)) => leftover_token(out) == Some(t@),
            }
        }),
{
    let ghost vs = values@.map_values(|kv: (&str, &str)| (kv.0@, kv.1@));
    let mut out = chars_of(template);
    let mut i: usize = 0;
    assert(vs.skip(0) == vs);
    while i < values.len()
        invariant
            i <= values.len(),
            vs == values@.map_values(|kv: (&str, &str)| (kv.0@, kv.1@)),
            substitute(template@, vs) == substitute(out@, vs.skip(i as int)),
        decreases values.len() - i,
    {
        let (key, value) = values[i];
        let mut pat: Vec<char> = Vec::new();
        pat.push('{');
        pat.push('{');
        push_str(&mut pat, key);
        pat.push('}');
        pat.push('}');
        let rep = chars_of(value);
        proof {
            assert(pat@ == placeholder(key@));
            assert(vs.skip(i as int)[0] == (key@, value@));
            assert(vs.skip(i as int).drop_first() == vs.skip(i + 1));
        }
        out = replace(&out, &pat, &rep);
        i = i + 1;
    }
    assert(vs.skip(values.len() as int).len() == 0);
    let text = string_from_chars(&out);
    match find_placeholder_token(text.as_str()) {
        Some(tok) => Err(TemplateError::UnresolvedPlaceholder(tok)),
        None => Ok(text),
    }
}

/// Finds the first (leftmost) `{{TOKEN}}`-shaped substring whose `TOKEN` is
/// one or more ASCII uppercase letters or underscores. Text that merely
/// contains `{{` without that shape (prose in a CSS comment) is not a
/// leftover placeholder.
pub fn find_placeholder_token(s: &str) -> (r: Option<String>)
    ensures
        r is Some <==> leftover_token(s@) is Some,
        r matches Some(t) ==> leftover_token(s@) == Some(t@),
{
    let out = chars_of(s);
    match placeholder_span(&out) {
        Some((a, b)) => {
            let mut tok: Vec<char> = Vec::new();
            let mut k: usize = a;
            while k < b
                invariant
                    a <= k <= b,
                    b <= out.len(),
                    tok@ == out@.subrange(a as int, k as int),
                decreases b - k,
            {
                tok.push(out[k]);
                assert(out@.subrange(a as int, k + 1) == out@.subrange(a as int, k as int).push(
                    out@[k as int],
                ));
                k = k + 1;
            }
            Some(string_from_chars(&tok))
        },
        None => None,
    }
}

} // verus!
