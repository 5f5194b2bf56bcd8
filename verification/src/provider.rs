//! Declarative provider calls.
//!
//! A provider binding names an external-API definition, renders its url
//! and property templates, checks every rendered property against the
//! definition's rules, verifies that everything marked required is
//! present, and assembles the outgoing query, body and header maps — all
//! before a single byte goes over the wire. The caller performs the HTTP
//! GET and hands the JSON answer back to [`provider_finish`], which folds
//! the binding's transform templates into the accumulated transform.

use vstd::prelude::*;

use crate::config::ConfigProvider;
use crate::context::RenderCtx;
use crate::error::ResolveError;
use crate::render::{json_valid, render_outcome, render_template};
use crate::resolve::{merge_transform, optional_entries};
use crate::text::{assoc_set, StrMap};

verus! {

/// Where a property travels in the outgoing request.
#[derive(Debug, Clone, Copy, PartialEq, Eq, Structural)]
pub enum Redirect {
    Query,
    Body,
    Headers,
}

/// One rule of a provider definition: the properties it governs, whether
/// they are required, and where they are sent.
#[derive(Debug)]
pub struct PropRule {
    pub required: bool,
    pub redirect: Redirect,
    pub props: Vec<String>,
}

/// An external-API definition, loaded per invocation by name.
#[derive(Debug)]
pub struct Provider {
    pub url: String,
    pub env: Option<Vec<String>>,
    pub prop_rules: Vec<PropRule>,
    pub headers: Option<StrMap>,
    pub body: Option<StrMap>,
    pub query: Option<StrMap>,
}

/// One fully assembled outgoing request.
#[derive(Debug)]
pub struct ProviderRequest {
    pub url: String,
    pub query: StrMap,
    pub body: StrMap,
    pub headers: StrMap,
}

/// The view of a list of owned string pairs.
pub open spec fn pairs_view(v: Seq<(String, String)>) -> Seq<(Seq<char>, Seq<char>)> {
    v.map_values(|p: (String, String)| (p.0@, p.1@))
}

/// Whether `p` occurs among `names`.
pub open spec fn contains_name(names: Seq<String>, p: Seq<char>) -> bool {
    exists|i: int| 0 <= i < names.len() && names[i]@ == p
}

/// The first rule governing `p`, scanning in declared order.
pub open spec fn rule_for(rules: Seq<PropRule>, p: Seq<char>) -> Option<PropRule>
    decreases rules.len(),
{
    if rules.len() == 0 {
        None
    } else if contains_name(rules[0].props@, p) {
        Some(rules[0])
    } else {
        rule_for(rules.skip(1), p)
    }
}

/// Renders the value template of every pair, in order; `None` as soon as
/// one fails.
pub open spec fn render_pairs(pairs: Seq<(Seq<char>, Seq<char>)>, ctxv: Seq<char>) -> Option<
    Seq<(Seq<char>, Seq<char>)>,
>
    decreases pairs.len(),
{
    if pairs.len() == 0 {
        Some(Seq::<(Seq<char>, Seq<char>)>::empty())
    } else {
        match render_outcome(pairs[0].1, ctxv) {
            None => None,
            Some(v) => match render_pairs(pairs.skip(1), ctxv) {
                None => None,
                Some(rest) => Some(seq![(pairs[0].0, v)] + rest),
            },
        }
    }
}

/// The first rendered property no rule governs, in supplied order.
pub open spec fn first_unruled(
    rules: Seq<PropRule>,
    rend: Seq<(Seq<char>, Seq<char>)>,
) -> Option<Seq<char>>
    decreases rend.len(),
{
    if rend.len() == 0 {
        None
    } else if rule_for(rules, rend[0].0) is None {
        Some(rend[0].0)
    } else {
        first_unruled(rules, rend.skip(1))
    }
}

/// Whether a property marked required is satisfied: it was supplied, and
/// the rule that governs it (the first match) is itself a required rule.
pub open spec fn covered(
    rules: Seq<PropRule>,
    rend: Seq<(Seq<char>, Seq<char>)>,
    p: Seq<char>,
) -> bool {
    (exists|k: int| 0 <= k < rend.len() && rend[k].0 == p) && match rule_for(rules, p) {
        Some(r) => r.required,
        None => false,
    }
}

/// The first uncovered name among `names`.
pub open spec fn first_uncovered(
    rules: Seq<PropRule>,
    names: Seq<String>,
    rend: Seq<(Seq<char>, Seq<char>)>,
) -> Option<Seq<char>>
    decreases names.len(),
{
    if names.len() == 0 {
        None
    } else if !covered(rules, rend, names[0]@) {
        Some(names[0]@)
    } else {
        first_uncovered(rules, names.skip(1), rend)
    }
}

/// The first property of a required rule that is not covered, walking the
/// rules in declared order.
pub open spec fn first_missing_required(
    rules: Seq<PropRule>,
    rem: Seq<PropRule>,
    rend: Seq<(Seq<char>, Seq<char>)>,
) -> Option<Seq<char>>
    decreases rem.len(),
{
    if rem.len() == 0 {
        None
    } else {
        let inner = if rem[0].required {
            first_uncovered(rules, rem[0].props@, rend)
        } else {
            None
        };
        if inner is Some {
            inner
        } else {
            first_missing_required(rules, rem.skip(1), rend)
        }
    }
}

/// Binds every pair of `add` into `base`, in order.
pub open spec fn set_all(
    base: Seq<(Seq<char>, Seq<char>)>,
    add: Seq<(Seq<char>, Seq<char>)>,
) -> Seq<(Seq<char>, Seq<char>)>
    decreases add.len(),
{
    if add.len() == 0 {
        base
    } else {
        set_all(assoc_set(base, add[0].0, add[0].1), add.skip(1))
    }
}

/// Overlays every rendered property bound for `target` onto `base`, in
/// supplied order.
pub open spec fn overlay_props(
    base: Seq<(Seq<char>, Seq<char>)>,
    rend: Seq<(Seq<char>, Seq<char>)>,
    rules: Seq<PropRule>,
    target: Redirect,
) -> Seq<(Seq<char>, Seq<char>)>
    decreases rend.len(),
{
    if rend.len() == 0 {
        base
    } else {
        let b2 = match rule_for(rules, rend[0].0) {
            Some(r) => if r.redirect == target {
                assoc_set(base, rend[0].0, rend[0].1)
            } else {
                base
            },
            None => base,
        };
        overlay_props(b2, rend.skip(1), rules, target)
    }
}

/// One outgoing part: the rendered defaults of the definition, overlaid
/// with the rendered per-call properties bound for `target`.
pub open spec fn part_spec(
    defaults_rendered: Seq<(Seq<char>, Seq<char>)>,
    rend: Seq<(Seq<char>, Seq<char>)>,
    rules: Seq<PropRule>,
    target: Redirect,
) -> Seq<(Seq<char>, Seq<char>)> {
    overlay_props(
        set_all(Seq::<(Seq<char>, Seq<char>)>::empty(), defaults_rendered),
        rend,
        rules,
        target,
    )
}

/// What preparing a provider call yields, before any network traffic.
pub enum PrepOutcome {
    /// Everything rendered and checked; the request is fully assembled.
    Ready {
        url: Seq<char>,
        query: Seq<(Seq<char>, Seq<char>)>,
        body: Seq<(Seq<char>, Seq<char>)>,
        headers: Seq<(Seq<char>, Seq<char>)>,
    },
    /// Some template (url, property or default) failed to render.
    BadTemplate,
    /// A supplied property matches no rule.
    NoRule { prop: Seq<char> },
    /// A property of a required rule is not satisfied.
    MissingRequired { prop: Seq<char> },
}

/// The whole preparation, in the order the checks run: url template,
/// property templates, rule lookup, required check, then the defaults of
/// query, body and headers.
pub open spec fn provider_prepare_spec(
    cfg: ConfigProvider,
    def: Provider,
    ctxv: Seq<char>,
) -> PrepOutcome {
    match render_outcome(def.url@, ctxv) {
        None => PrepOutcome::BadTemplate,
        Some(url) => match render_pairs(cfg.props@, ctxv) {
            None => PrepOutcome::BadTemplate,
            Some(rend) => match first_unruled(def.prop_rules@, rend) {
                Some(p) => PrepOutcome::NoRule { prop: p },
                None => match first_missing_required(def.prop_rules@, def.prop_rules@, rend) {
                    Some(p) => PrepOutcome::MissingRequired { prop: p },
                    None => match render_pairs(optional_entries(def.query), ctxv) {
                        None => PrepOutcome::BadTemplate,
                        Some(qd) => match render_pairs(optional_entries(def.body), ctxv) {
                            None => PrepOutcome::BadTemplate,
                            Some(bd) => match render_pairs(optional_entries(def.headers), ctxv) {
                                None => PrepOutcome::BadTemplate,
                                Some(hd) => PrepOutcome::Ready {
                                    url,
                                    query: part_spec(qd, rend, def.prop_rules@, Redirect::Query),
                                    body: part_spec(bd, rend, def.prop_rules@, Redirect::Body),
                                    headers: part_spec(
                                        hd,
                                        rend,
                                        def.prop_rules@,
                                        Redirect::Headers,
                                    ),
                                },
                            },
                        },
                    },
                },
            },
        },
    }
}

proof fn lemma_render_pairs_keys(pairs: Seq<(Seq<char>, Seq<char>)>, ctxv: Seq<char>)
    requires
        render_pairs(pairs, ctxv) is Some,
    ensures
        render_pairs(pairs, ctxv)->0.len() == pairs.len(),
        forall|k: int|
            0 <= k < pairs.len() ==> #[trigger] render_pairs(pairs, ctxv)->0[k].0 == pairs[k].0,
    decreases pairs.len(),
{
    if pairs.len() > 0 {
        lemma_render_pairs_keys(pairs.skip(1), ctxv);
        let rest = render_pairs(pairs.skip(1), ctxv)->0;
        let whole = render_pairs(pairs, ctxv)->0;
        assert(whole == seq![(pairs[0].0, render_outcome(pairs[0].1, ctxv)->0)] + rest);
        assert forall|k: int| 0 <= k < pairs.len() implies #[trigger] whole[k].0 == pairs[k].0 by {
            if k > 0 {
                assert(whole[k] == rest[k - 1]);
                assert(pairs.skip(1)[k - 1] == pairs[k]);
            }
        }
    }
}

proof fn lemma_first_uncovered_none(
    rules: Seq<PropRule>,
    names: Seq<String>,
    rend: Seq<(Seq<char>, Seq<char>)>,
    b: int,
)
    requires
        first_uncovered(rules, names, rend) is None,
        0 <= b < names.len(),
    ensures
        covered(rules, rend, names[b]@),
    decreases names.len(),
{
    if b > 0 {
        assert(names.skip(1)[b - 1] == names[b]);
        lemma_first_uncovered_none(rules, names.skip(1), rend, b - 1);
    }
}

proof fn lemma_fmr_none_covered(
    rules: Seq<PropRule>,
    rem: Seq<PropRule>,
    rend: Seq<(Seq<char>, Seq<char>)>,
    a: int,
    b: int,
)
    requires
        first_missing_required(rules, rem, rend) is None,
        0 <= a < rem.len(),
        rem[a].required,
        0 <= b < rem[a].props@.len(),
    ensures
        covered(rules, rend, rem[a].props@[b]@),
    decreases rem.len(),
{
    if a == 0 {
        lemma_first_uncovered_none(rules, rem[0].props@, rend, b);
    } else {
        assert(rem.skip(1)[a - 1] == rem[a]);
        lemma_fmr_none_covered(rules, rem.skip(1), rend, a - 1, b);
    }
}

/// A property that some rule marks required, but for which the invoking
/// binding supplies no value, stops the preparation: the outcome is never
/// `Ready`, so no request exists that could be sent.
pub proof fn lemma_missing_required_blocks(
    cfg: ConfigProvider,
    def: Provider,
    ctxv: Seq<char>,
    a: int,
    b: int,
)
    requires
        0 <= a < def.prop_rules@.len(),
        def.prop_rules@[a].required,
        0 <= b < def.prop_rules@[a].props@.len(),
        forall|k: int|
            0 <= k < cfg.props@.len() ==> #[trigger] cfg.props@[k].0 != def.prop_rules@[a].props@[b]@,
    ensures
        !(provider_prepare_spec(cfg, def, ctxv) is Ready),
{
    if provider_prepare_spec(cfg, def, ctxv) is Ready {
        let rend = render_pairs(cfg.props@, ctxv)->0;
        lemma_fmr_none_covered(def.prop_rules@, def.prop_rules@, rend, a, b);
        let p = def.prop_rules@[a].props@[b]@;
        assert(covered(def.prop_rules@, rend, p));
        let k = choose|k: int| 0 <= k < rend.len() && rend[k].0 == p;
        lemma_render_pairs_keys(cfg.props@, ctxv);
        assert(rend[k].0 == cfg.props@[k].0);
        assert(false);
    }
}

/// Whether `p` occurs among `names`.
fn names_contain(names: &Vec<String>, p: &str) -> (r: bool)
    ensures
        r == contains_name(names@, p@),
{
    let n = names.len();
    let mut i: usize = 0;
    while i < n
        invariant
            n == names@.len(),
            i <= n,
            forall|j: int| 0 <= j < i ==> names@[j]@ != p@,
        decreases n - i,
    {
        if crate::text::str_eq(names[i].as_str(), p) {
            return true;
        }
        i = i + 1;
    }
    false
}

/// The first rule governing `p`.
fn find_rule<'a>(rules: &'a Vec<PropRule>, p: &str) -> (r: Option<&'a PropRule>)
    ensures
        r is Some <==> rule_for(rules@, p@) is Some,
        r matches Some(v) ==> rule_for(rules@, p@) == Some(*v),
{
    let n = rules.len();
    let mut i: usize = 0;
    proof {
        assert(rules@.skip(0) =~= rules@);
    }
    while i < n
        invariant
            n == rules@.len(),
            i <= n,
            rule_for(rules@, p@) == rule_for(rules@.skip(i as int), p@),
        decreases n - i,
    {
        proof {
            assert(rules@.skip(i as int)[0] == rules@[i as int]);
            assert(rules@.skip(i as int).skip(1) =~= rules@.skip(i as int + 1));
        }
        if names_contain(&rules[i].props, p) {
            return Some(&rules[i]);
        }
        i = i + 1;
    }
    proof {
        assert(rules@.skip(n as int) =~= Seq::<PropRule>::empty());
    }
    None
}

/// Renders every value template of `pairs` against `ctx_json`.
pub(crate) fn render_entry_pairs(pairs: &StrMap, ctx_json: &str) -> (r: Result<
    Vec<(String, String)>,
    ResolveError,
>)
    ensures
        r is Ok <==> render_pairs(pairs@, ctx_json@) is Some,
        r matches Ok(v) ==> render_pairs(pairs@, ctx_json@) == Some(pairs_view(v@)),
        r matches Err(e) ==> e is Template,
{
    let ghost all = pairs@;
    let mut out: Vec<(String, String)> = Vec::new();
    let n = pairs.len();
    let mut i: usize = 0;
    proof {
        assert(all.skip(0) =~= all);
    }
    while i < n
        invariant
            n == pairs@.len(),
            all == pairs@,
            i <= n,
            render_pairs(all, ctx_json@) matches Some(whole) ==> render_pairs(
                all.skip(i as int),
                ctx_json@,
            ) matches Some(rest) && whole == pairs_view(out@) + rest,
            render_pairs(all, ctx_json@) is None ==> render_pairs(
                all.skip(i as int),
                ctx_json@,
            ) is None,
            pairs_view(out@).len() == i,
        decreases n - i,
    {
        proof {
            assert(all.skip(i as int)[0] == all[i as int]);
            assert(all.skip(i as int).skip(1) =~= all.skip(i as int + 1));
        }
        let tpl = pairs.val_at(i);
        match render_template(tpl.as_str(), ctx_json) {
            Ok(v) => {
                let k = crate::text::clone_string(pairs.key_at(i));
                out.push((k, v));
                proof {
                    assert(pairs_view(out@) =~= pairs_view(out@.drop_last()) + seq![
                        (all[i as int].0, v@),
                    ]);
                    if render_pairs(all, ctx_json@) is Some {
                        let whole = render_pairs(all, ctx_json@)->0;
                        let rest = render_pairs(all.skip(i as int), ctx_json@)->0;
                        let rest2 = render_pairs(all.skip(i as int + 1), ctx_json@)->0;
                        assert(rest == seq![(all[i as int].0, v@)] + rest2);
                        assert(pairs_view(out@.drop_last()) + rest =~= pairs_view(out@) + rest2);
                    }
                }
            },
            Err(e) => {
                proof {
                    assert(render_pairs(all.skip(i as int), ctx_json@) is None);
                }
                return Err(e);
            },
        }
        i = i + 1;
    }
    proof {
        assert(all.skip(n as int) =~= Seq::<(Seq<char>, Seq<char>)>::empty());
        if render_pairs(all, ctx_json@) is Some {
            assert(pairs_view(out@) + Seq::<(Seq<char>, Seq<char>)>::empty() =~= pairs_view(out@));
        }
    }
    Ok(out)
}

/// Folds owned pairs into a fresh map, in order.
pub fn pairs_to_map(pairs: Vec<(String, String)>) -> (r: StrMap)
    ensures
        r@ == set_all(Seq::<(Seq<char>, Seq<char>)>::empty(), pairs_view(pairs@)),
        r.wf(),
{
    let ghost pv = pairs_view(pairs@);
    let mut out = StrMap::new();
    let n = pairs.len();
    let mut i: usize = 0;
    proof {
        assert(pv.skip(0) =~= pv);
    }
    while i < n
        invariant
            n == pairs@.len(),
            pv == pairs_view(pairs@),
            i <= n,
            out.wf(),
            set_all(Seq::<(Seq<char>, Seq<char>)>::empty(), pv) == set_all(
                out@,
                pv.skip(i as int),
            ),
        decreases n - i,
    {
        proof {
            assert(pv.skip(i as int)[0] == pv[i as int]);
            assert(pv.skip(i as int).skip(1) =~= pv.skip(i as int + 1));
        }
        let k = crate::text::clone_string(&pairs[i].0);
        let v = crate::text::clone_string(&pairs[i].1);
        out.set_pair(k, v);
        i = i + 1;
    }
    proof {
        assert(pv.skip(n as int) =~= Seq::<(Seq<char>, Seq<char>)>::empty());
    }
    out
}

/// Finds the first supplied property no rule governs.
fn check_rules(rules: &Vec<PropRule>, rend: &Vec<(String, String)>) -> (r: Result<
    (),
    ResolveError,
>)
    ensures
        r is Ok <==> first_unruled(rules@, pairs_view(rend@)) is None,
        r matches Err(e) ==> e matches ResolveError::PropRuleMissing { prop } && first_unruled(
            rules@,
            pairs_view(rend@),
        ) == Some(prop@),
{
    let ghost all = pairs_view(rend@);
    let n = rend.len();
    let mut i: usize = 0;
    proof {
        assert(all.skip(0) =~= all);
    }
    while i < n
        invariant
            n == rend@.len(),
            all == pairs_view(rend@),
            all.len() == n,
            i <= n,
            first_unruled(rules@, all) == first_unruled(rules@, all.skip(i as int)),
        decreases n - i,
    {
        proof {
            assert(all.skip(i as int)[0] == all[i as int]);
            assert(all.skip(i as int).skip(1) =~= all.skip(i as int + 1));
        }
        if find_rule(rules, rend[i].0.as_str()).is_none() {
            let prop = crate::text::clone_string(&rend[i].0);
            return Err(ResolveError::PropRuleMissing { prop });
        }
        i = i + 1;
    }
    proof {
        assert(all.skip(n as int) =~= Seq::<(Seq<char>, Seq<char>)>::empty());
    }
    Ok(())
}

/// Whether a required property is satisfied.
fn is_covered(rules: &Vec<PropRule>, rend: &Vec<(String, String)>, p: &str) -> (r: bool)
    ensures
        r == covered(rules@, pairs_view(rend@), p@),
{
    let n = rend.len();
    let mut supplied = false;
    let mut i: usize = 0;
    while i < n
        invariant
            n == rend@.len(),
            i <= n,
            supplied == exists|k: int| 0 <= k < i && pairs_view(rend@)[k].0 == p@,
        decreases n - i,
    {
        proof {
            assert(pairs_view(rend@)[i as int].0 == rend@[i as int].0@);
        }
        if crate::text::str_eq(rend[i].0.as_str(), p) {
            supplied = true;
            proof {
                assert(pairs_view(rend@)[i as int].0 == p@);
            }
        }
        i = i + 1;
    }
    if !supplied {
        return false;
    }
    match find_rule(rules, p) {
        Some(rule) => rule.required,
        None => false,
    }
}

/// Finds the first property of a required rule that is not satisfied.
fn check_required(rules: &Vec<PropRule>, rend: &Vec<(String, String)>) -> (r: Result<
    (),
    ResolveError,
>)
    ensures
        r is Ok <==> first_missing_required(rules@, rules@, pairs_view(rend@)) is None,
        r matches Err(e) ==> e matches ResolveError::RequiredPropMissing { prop }
            && first_missing_required(rules@, rules@, pairs_view(rend@)) == Some(prop@),
{
    let ghost rendv = pairs_view(rend@);
    let n = rules.len();
    let mut i: usize = 0;
    proof {
        assert(rules@.skip(0) =~= rules@);
    }
    while i < n
        invariant
            n == rules@.len(),
            rendv == pairs_view(rend@),
            i <= n,
            first_missing_required(rules@, rules@, rendv) == first_missing_required(
                rules@,
                rules@.skip(i as int),
                rendv,
            ),
        decreases n - i,
    {
        proof {
            assert(rules@.skip(i as int)[0] == rules@[i as int]);
            assert(rules@.skip(i as int).skip(1) =~= rules@.skip(i as int + 1));
        }
        if rules[i].required {
            let names = &rules[i].props;
            let m = names.len();
            let mut j: usize = 0;
            proof {
                assert(names@.skip(0) =~= names@);
            }
            while j < m
                invariant
                    n == rules@.len(),
                    i < n,
                    rules@[i as int].required,
                    m == names@.len(),
                    names@ == rules@[i as int].props@,
                    rendv == pairs_view(rend@),
                    j <= m,
                    first_missing_required(rules@, rules@, rendv) == first_missing_required(
                        rules@,
                        rules@.skip(i as int),
                        rendv,
                    ),
                    first_uncovered(rules@, names@, rendv) == first_uncovered(
                        rules@,
                        names@.skip(j as int),
                        rendv,
                    ),
                decreases m - j,
            {
                proof {
                    assert(names@.skip(j as int)[0] == names@[j as int]);
                    assert(names@.skip(j as int).skip(1) =~= names@.skip(j as int + 1));
                }
                if !is_covered(rules, rend, names[j].as_str()) {
                    let prop = crate::text::clone_string(&names[j]);
                    proof {
                        assert(first_uncovered(rules@, names@.skip(j as int), rendv) == Some(
                            names@[j as int]@,
                        ));
                        assert(rules@.skip(i as int)[0] == rules@[i as int]);
                        assert(first_missing_required(rules@, rules@.skip(i as int), rendv)
                            == Some(names@[j as int]@));
                    }
                    return Err(ResolveError::RequiredPropMissing { prop });
                }
                j = j + 1;
            }
            proof {
                assert(names@.skip(m as int) =~= Seq::<String>::empty());
                assert(first_uncovered(rules@, names@, rendv) is None);
                assert(rules@.skip(i as int)[0] == rules@[i as int]);
                assert(rules@.skip(i as int).skip(1) =~= rules@.skip(i as int + 1));
                assert(first_missing_required(rules@, rules@.skip(i as int), rendv)
                    == first_missing_required(rules@, rules@.skip(i as int + 1), rendv));
            }
        } else {
            proof {
                assert(first_missing_required(rules@, rules@.skip(i as int), rendv)
                    == first_missing_required(rules@, rules@.skip(i as int + 1), rendv));
            }
        }
        i = i + 1;
    }
    proof {
        assert(rules@.skip(n as int) =~= Seq::<PropRule>::empty());
    }
    Ok(())
}

/// Builds one outgoing part: defaults first, then the per-call properties
/// bound for `target` on top.
fn build_part(
    defaults: &Option<StrMap>,
    rend: &Vec<(String, String)>,
    rules: &Vec<PropRule>,
    target: Redirect,
    ctx_json: &str,
) -> (r: Result<StrMap, ResolveError>)
    ensures
        r is Ok <==> render_pairs(optional_entries(*defaults), ctx_json@) is Some,
        r matches Ok(m) ==> render_pairs(optional_entries(*defaults), ctx_json@) matches Some(d)
            && m@ == part_spec(d, pairs_view(rend@), rules@, target) && m.wf(),
        r matches Err(e) ==> e is Template,
{
    let rendered_defaults = match defaults {
        Some(m) => render_entry_pairs(m, ctx_json),
        None => {
            proof {
                assert(render_pairs(optional_entries(*defaults), ctx_json@) == Some(
                    Seq::<(Seq<char>, Seq<char>)>::empty(),
                ));
            }
            Ok(Vec::new())
        },
    };
    let rendered_defaults = match rendered_defaults {
        Ok(v) => v,
        Err(e) => {
            return Err(e);
        },
    };
    let ghost dv = pairs_view(rendered_defaults@);
    let mut out = StrMap::new();
    let dn = rendered_defaults.len();
    let mut i: usize = 0;
    proof {
        assert(dv.skip(0) =~= dv);
    }
    while i < dn
        invariant
            dn == rendered_defaults@.len(),
            dv == pairs_view(rendered_defaults@),
            i <= dn,
            out.wf(),
            set_all(Seq::<(Seq<char>, Seq<char>)>::empty(), dv) == set_all(
                out@,
                dv.skip(i as int),
            ),
        decreases dn - i,
    {
        proof {
            assert(dv.skip(i as int)[0] == dv[i as int]);
            assert(dv.skip(i as int).skip(1) =~= dv.skip(i as int + 1));
        }
        let k = crate::text::clone_string(&rendered_defaults[i].0);
        let v = crate::text::clone_string(&rendered_defaults[i].1);
        out.set_pair(k, v);
        i = i + 1;
    }
    proof {
        assert(dv.skip(dn as int) =~= Seq::<(Seq<char>, Seq<char>)>::empty());
    }
    let ghost rendv = pairs_view(rend@);
    let ghost base = out@;
    let rn = rend.len();
    let mut j: usize = 0;
    proof {
        assert(rendv.skip(0) =~= rendv);
    }
    while j < rn
        invariant
            rn == rend@.len(),
            rendv == pairs_view(rend@),
            j <= rn,
            out.wf(),
            overlay_props(base, rendv, rules@, target) == overlay_props(
                out@,
                rendv.skip(j as int),
                rules@,
                target,
            ),
        decreases rn - j,
    {
        proof {
            assert(rendv.skip(j as int)[0] == rendv[j as int]);
            assert(rendv.skip(j as int).skip(1) =~= rendv.skip(j as int + 1));
        }
        let applies = match find_rule(rules, rend[j].0.as_str()) {
            Some(rule) => rule.redirect == target,
            None => false,
        };
        if applies {
            let k = crate::text::clone_string(&rend[j].0);
            let v = crate::text::clone_string(&rend[j].1);
            out.set_pair(k, v);
        }
        j = j + 1;
    }
    proof {
        assert(rendv.skip(rn as int) =~= Seq::<(Seq<char>, Seq<char>)>::empty());
    }
    Ok(out)
}

/// Prepares one provider call: renders the url and every property, checks
/// the rules, and assembles the outgoing request. Nothing here touches the
/// network; in particular a missing required property fails before any
/// request value exists at all.
pub fn provider_prepare(
    cfg: &ConfigProvider,
    def: &Provider,
    ctx: &RenderCtx,
    env: &StrMap,
) -> (r: Result<ProviderRequest, ResolveError>)
    ensures
        ({
            let out = provider_prepare_spec(*cfg, *def, ctx.json_with_env(env@));
            match r {
                Ok(req) => out matches PrepOutcome::Ready { url, query, body, headers }
                    && req.url@ == url && req.query@ == query && req.body@ == body
                    && req.headers@ == headers && req.query.wf() && req.body.wf()
                    && req.headers.wf(),
                Err(e) => match e {
                    ResolveError::Template { .. } => out is BadTemplate,
                    ResolveError::PropRuleMissing { prop } => out matches PrepOutcome::NoRule {
                        prop: p,
                    } && prop@ == p,
                    ResolveError::RequiredPropMissing { prop } => out
                        matches PrepOutcome::MissingRequired { prop: p } && prop@ == p,
                    _ => false,
                },
            }
        }),
{
    let ctx_json = crate::context::ctx_json_with_env(ctx, env);
    let url = match render_template(def.url.as_str(), ctx_json.as_str()) {
        Ok(u) => u,
        Err(e) => {
            return Err(e);
        },
    };
    let rend = match render_entry_pairs(&cfg.props, ctx_json.as_str()) {
        Ok(v) => v,
        Err(e) => {
            return Err(e);
        },
    };
    match check_rules(&def.prop_rules, &rend) {
        Ok(()) => (),
        Err(e) => {
            return Err(e);
        },
    }
    match check_required(&def.prop_rules, &rend) {
        Ok(()) => (),
        Err(e) => {
            return Err(e);
        },
    }
    let query = match build_part(&def.query, &rend, &def.prop_rules, Redirect::Query, ctx_json.as_str()) {
        Ok(m) => m,
        Err(e) => {
            return Err(e);
        },
    };
    let body = match build_part(&def.body, &rend, &def.prop_rules, Redirect::Body, ctx_json.as_str()) {
        Ok(m) => m,
        Err(e) => {
            return Err(e);
        },
    };
    let headers = match build_part(
        &def.headers,
        &rend,
        &def.prop_rules,
        Redirect::Headers,
        ctx_json.as_str(),
    ) {
        Ok(m) => m,
        Err(e) => {
            return Err(e);
        },
    };
    Ok(ProviderRequest { url, query, body, headers })
}

/// Finishes a provider step once the HTTP answer is in hand: rejects a
/// non-JSON answer, then folds the binding's transform templates —
/// rendered against the response-augmented context — into `transform`.
/// A provider contributes no visible text, only transform state.
pub fn provider_finish(
    cfg: &ConfigProvider,
    ctx: &RenderCtx,
    env: &StrMap,
    response_raw: &str,
    transform: StrMap,
) -> (r: Result<StrMap, ResolveError>)
    requires
        transform.wf(),
    ensures
        !json_valid(response_raw@) ==> (r matches Err(e) && e is ProviderCall),
        json_valid(response_raw@) ==> ({
            let merged = merge_transform(
                transform@,
                optional_entries(cfg.transform),
                ctx.json_with_response(env@, response_raw@),
            );
            match r {
                Ok(m) => merged == Some(m@) && m.wf(),
                Err(e) => e is Template && merged is None,
            }
        }),
{
    if !crate::render::json_is_valid(response_raw) {
        return Err(
            ResolveError::ProviderCall {
                detail: String::from_str("the response is not JSON"),
            },
        );
    }
    let ctx_json = crate::context::ctx_json_with_response(ctx, env, response_raw);
    match &cfg.transform {
        Some(entries) => crate::resolve::apply_transform(transform, entries, ctx_json.as_str()),
        None => Ok(transform),
    }
}

/// Keeps, of all environment pairs, those whose name stands on the
/// definition's allow list, in environment order; a definition without an
/// allow list exposes nothing.
pub open spec fn env_filter(
    acc: Seq<(Seq<char>, Seq<char>)>,
    all: Seq<(String, String)>,
    allow: Seq<String>,
) -> Seq<(Seq<char>, Seq<char>)>
    decreases all.len(),
{
    if all.len() == 0 {
        acc
    } else {
        let a2 = if contains_name(allow, all[0].0@) {
            assoc_set(acc, all[0].0@, all[0].1@)
        } else {
            acc
        };
        env_filter(a2, all.skip(1), allow)
    }
}

/// The allow list of a definition, or none at all.
pub open spec fn allow_names(env: Option<Vec<String>>) -> Seq<String> {
    match env {
        Some(v) => v@,
        None => Seq::<String>::empty(),
    }
}

/// Filters the caller-supplied environment pairs down to the definition's
/// allow list.
pub fn filter_env(all: &Vec<(String, String)>, def: &Provider) -> (r: StrMap)
    ensures
        r@ == env_filter(
            Seq::<(Seq<char>, Seq<char>)>::empty(),
            all@,
            allow_names(def.env),
        ),
        r.wf(),
{
    let ghost allv = all@;
    let ghost allow = allow_names(def.env);
    let mut out = StrMap::new();
    let n = all.len();
    let mut i: usize = 0;
    proof {
        assert(allv.skip(0) =~= allv);
    }
    while i < n
        invariant
            n == all@.len(),
            allv == all@,
            allow == allow_names(def.env),
            i <= n,
            out.wf(),
            env_filter(Seq::<(Seq<char>, Seq<char>)>::empty(), allv, allow) == env_filter(
                out@,
                allv.skip(i as int),
                allow,
            ),
        decreases n - i,
    {
        proof {
            assert(allv.skip(i as int)[0] == allv[i as int]);
            assert(allv.skip(i as int).skip(1) =~= allv.skip(i as int + 1));
        }
        let keep = match &def.env {
            Some(names) => names_contain(names, all[i].0.as_str()),
            None => false,
        };
        if keep {
            let k = crate::text::clone_string(&all[i].0);
            let v = crate::text::clone_string(&all[i].1);
            out.set_pair(k, v);
        }
        i = i + 1;
    }
    proof {
        assert(allv.skip(n as int) =~= Seq::<(String, String)>::empty());
    }
    out
}

} // verus!
