//! Template rendering.
//!
//! A template plus a rendering context (handed over as JSON text) yields a
//! rendered string. The template language itself is an outside capability:
//! its outcome is named by [`render_outcome`] and every caller's contract
//! speaks of that name. Two facts are relied on beyond determinism: a
//! template with no template syntax and no trailing newline is echoed
//! unchanged, and the engine exposes a `trim` helper implemented by this
//! crate's verified [`trim`].

use vstd::prelude::*;

use crate::error::ResolveError;
use crate::jsontext::joined_lines;

verus! {

/// Number of leading occurrences of `c` in `s`.
pub open spec fn leading(s: Seq<char>, c: char) -> nat
    decreases s.len(),
{
    if s.len() > 0 && s[0] == c {
        (1 + leading(s.skip(1), c)) as nat
    } else {
        0
    }
}

/// Number of trailing occurrences of `c` in `s`.
pub open spec fn trailing(s: Seq<char>, c: char) -> nat
    decreases s.len(),
{
    if s.len() > 0 && s.last() == c {
        (1 + trailing(s.drop_last(), c)) as nat
    } else {
        0
    }
}

/// `s` with every leading and trailing occurrence of `c` removed.
pub open spec fn trim_spec(s: Seq<char>, c: char) -> Seq<char> {
    if leading(s, c) == s.len() {
        Seq::<char>::empty()
    } else {
        s.subrange(leading(s, c) as int, s.len() - trailing(s, c))
    }
}

proof fn lemma_leading_index(s: Seq<char>, c: char, i: int)
    requires
        0 <= i <= s.len(),
        forall|j: int| 0 <= j < i ==> s[j] == c,
        i == s.len() || s[i] != c,
    ensures
        leading(s, c) == i,
    decreases s.len(),
{
    if i == 0 {
    } else {
        assert(s[0] == c);
        assert(forall|j: int| 0 <= j < i - 1 ==> s.skip(1)[j] == s[j + 1]);
        assert(i - 1 == s.skip(1).len() || s.skip(1)[i - 1] == s[i]);
        lemma_leading_index(s.skip(1), c, i - 1);
    }
}

proof fn lemma_trailing_index(s: Seq<char>, c: char, h: int)
    requires
        0 <= h <= s.len(),
        forall|j: int| h <= j < s.len() ==> s[j] == c,
        h == 0 || s[h - 1] != c,
    ensures
        trailing(s, c) == s.len() - h,
    decreases s.len(),
{
    if h == s.len() {
        if s.len() > 0 {
            assert(s.last() == s[s.len() - 1]);
            assert(s[h - 1] != c);
        }
    } else {
        assert(s.last() == c);
        assert(forall|j: int| h <= j < s.drop_last().len() ==> s.drop_last()[j] == s[j]);
        assert(h == 0 || s.drop_last()[h - 1] == s[h - 1]);
        lemma_trailing_index(s.drop_last(), c, h);
    }
}

/// Removes every leading and trailing occurrence of `c` from `source`.
pub fn trim_char(source: &str, c: char) -> (r: String)
    ensures
        r@ == trim_spec(source@, c),
{
    let n = source.unicode_len();
    let mut lo: usize = 0;
    while lo < n && source.get_char(lo) == c
        invariant
            n == source@.len(),
            lo <= n,
            forall|j: int| 0 <= j < lo ==> source@[j] == c,
        decreases n - lo,
    {
        lo = lo + 1;
    }
    proof {
        lemma_leading_index(source@, c, lo as int);
    }
    if lo == n {
        return String::new();
    }
    let mut hi: usize = n;
    while hi > lo && source.get_char(hi - 1) == c
        invariant
            n == source@.len(),
            lo <= hi <= n,
            lo < n,
            source@[lo as int] != c,
            forall|j: int| hi <= j < n ==> source@[j] == c,
        decreases hi,
    {
        hi = hi - 1;
    }
    proof {
        if hi == lo {
            assert(source@[lo as int] == c);
        }
        lemma_trailing_index(source@, c, hi as int);
    }
    let piece = source.substring_char(lo, hi);
    String::from_str(piece)
}

/// The engine's string-trim helper: removes every leading and trailing
/// occurrence of the first character of `matches`; with an empty charset
/// the source passes through unchanged.
pub fn trim(source: &str, matches: &str) -> (r: String)
    ensures
        matches@.len() == 0 ==> r@ == source@,
        matches@.len() > 0 ==> r@ == trim_spec(source@, matches@[0]),
{
    if matches.unicode_len() == 0 {
        String::from_str(source)
    } else {
        trim_char(source, matches.get_char(0))
    }
}

/// What rendering `template` against the context described by
/// `context_json` produces: the rendered text, or `None` when the template
/// does not compile or rendering fails (an undefined variable path). The
/// outcome depends on the two texts alone.
pub uninterp spec fn render_outcome(template: Seq<char>, context_json: Seq<char>) -> Option<
    Seq<char>,
>;

/// Whether `s` is plain text to the template engine: no `{` anywhere (so no
/// variable, block or comment marker can open) and no trailing newline (the
/// engine drops one trailing line break from a template's source).
pub open spec fn literal_template(s: Seq<char>) -> bool {
    (forall|i: int| 0 <= i < s.len() ==> s[i] != '{') && (s.len() > 0 ==> s[s.len() - 1] != '\n'
        && s[s.len() - 1] != '\r')
}

/// Relies on minijinja: `Environment::add_template` compiles `template`
/// and `Template::render` renders it against the context value, which
/// serde_json::from_str builds from `context_json` (unparseable text acts
/// as an empty context). Undefined variables are strict errors. The
/// engine is configured identically on every call and has no source of
/// randomness or time, so the outcome is a function of the two texts; a
/// template with no `{` and no trailing line break is one literal token
/// and is emitted unchanged.
#[verifier::external_body]
fn render_raw(template: &str, context_json: &str) -> (r: Option<String>)
    ensures
        r is Some <==> render_outcome(template@, context_json@) is Some,
        r is Some ==> render_outcome(template@, context_json@) == Some(r->0@),
        literal_template(template@) ==> r is Some && r->0@ == template@,
{
    let context: serde_json::Value = serde_json::from_str(context_json).unwrap_or(
        serde_json::Value::Null,
    );
    let mut env = minijinja::Environment::new();
    env.set_undefined_behavior(minijinja::UndefinedBehavior::Strict);
    env.add_function("trim", |s: String, m: String| crate::render::trim(&s, &m));
    if env.add_template("task", template).is_err() {
        return None;
    }
    match env.get_template("task") {
        Ok(t) => t.render(&context).ok(),
        Err(_) => None,
    }
}

/// Renders `template` against the context given as JSON text.
pub fn render_template(template: &str, context_json: &str) -> (r: Result<String, ResolveError>)
    ensures
        r is Ok <==> render_outcome(template@, context_json@) is Some,
        r matches Ok(s) ==> render_outcome(template@, context_json@) == Some(s@),
        literal_template(template@) ==> r is Ok && r->Ok_0@ == template@,
        r matches Err(e) ==> e is Template,
{
    match render_raw(template, context_json) {
        Some(s) => Ok(s),
        None => Err(ResolveError::Template { detail: String::from_str(template) }),
    }
}

/// Renders a multi-line template body: the lines are joined with `"\n"`
/// before compilation.
pub fn render_template_lines(lines: &Vec<String>, context_json: &str) -> (r: Result<
    String,
    ResolveError,
>)
    ensures
        r is Ok <==> render_outcome(
            joined_lines(lines@.map_values(|s: String| s@)),
            context_json@,
        ) is Some,
        r matches Ok(s) ==> render_outcome(
            joined_lines(lines@.map_values(|s: String| s@)),
            context_json@,
        ) == Some(s@),
        r matches Err(e) ==> e is Template,
{
    let joined = crate::jsontext::join_lines(lines);
    render_template(joined.as_str(), context_json)
}

/// Whether `s` is JSON text.
pub uninterp spec fn json_valid(s: Seq<char>) -> bool;

/// Relies on `serde_json::from_str::<Value>`: accepts exactly JSON text,
/// a property of the characters alone.
#[verifier::external_body]
pub fn json_is_valid(s: &str) -> (r: bool)
    ensures
        r == json_valid(s@),
{
    serde_json::from_str::<serde_json::Value>(s).is_ok()
}

} // verus!
