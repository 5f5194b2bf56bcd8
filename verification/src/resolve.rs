//! Buffered resolution of one `responses.*` step.
//!
//! A response step is resolved in two halves around the model call: the
//! first renders the prompt and picks the model input, the second renders
//! the footer against the output-augmented context and folds the step's
//! transform templates into the accumulated transform map.

use vstd::prelude::*;

use crate::config::ConfigResponse;
use crate::context::RenderCtx;
use crate::error::ResolveError;
use crate::jsontext::joined_lines;
use crate::render::{render_outcome, render_template, render_template_lines};
use crate::text::{assoc_get, assoc_set, StrMap};

verus! {

/// The transform templates a step declares, or none.
pub open spec fn optional_entries(t: Option<StrMap>) -> Seq<(Seq<char>, Seq<char>)> {
    match t {
        Some(m) => m@,
        None => Seq::<(Seq<char>, Seq<char>)>::empty(),
    }
}

/// Folds rendered transform entries into `base`, in declared order, each
/// overwriting any earlier binding of its key; `None` when a template
/// fails to render.
pub open spec fn merge_transform(
    base: Seq<(Seq<char>, Seq<char>)>,
    entries: Seq<(Seq<char>, Seq<char>)>,
    ctxv: Seq<char>,
) -> Option<Seq<(Seq<char>, Seq<char>)>>
    decreases entries.len(),
{
    if entries.len() == 0 {
        Some(base)
    } else {
        match render_outcome(entries[0].1, ctxv) {
            None => None,
            Some(v) => merge_transform(assoc_set(base, entries[0].0, v), entries.skip(1), ctxv),
        }
    }
}

/// A key no transform entry touches keeps the value it had before the
/// merge: what an earlier step put into the transform stays visible to
/// every later step that does not overwrite it.
pub proof fn lemma_merge_preserves(
    base: Seq<(Seq<char>, Seq<char>)>,
    entries: Seq<(Seq<char>, Seq<char>)>,
    ctxv: Seq<char>,
    q: Seq<char>,
)
    requires
        merge_transform(base, entries, ctxv) is Some,
        forall|i: int| 0 <= i < entries.len() ==> entries[i].0 != q,
    ensures
        assoc_get(merge_transform(base, entries, ctxv)->0, q) == assoc_get(base, q),
    decreases entries.len(),
{
    if entries.len() > 0 {
        let v = render_outcome(entries[0].1, ctxv)->0;
        let base2 = assoc_set(base, entries[0].0, v);
        crate::text::lemma_assoc_set_get(base, entries[0].0, v, q);
        assert(forall|i: int|
            0 <= i < entries.skip(1).len() ==> entries.skip(1)[i] == entries[i + 1]);
        lemma_merge_preserves(base2, entries.skip(1), ctxv, q);
    }
}

/// A merged transform binds each written key to the rendered value of the
/// last entry that writes it, whatever the key held before: a later step
/// overrides an earlier one.
pub proof fn lemma_merge_overrides(
    base: Seq<(Seq<char>, Seq<char>)>,
    entries: Seq<(Seq<char>, Seq<char>)>,
    ctxv: Seq<char>,
    i: int,
)
    requires
        merge_transform(base, entries, ctxv) is Some,
        0 <= i < entries.len(),
        forall|j: int| i < j < entries.len() ==> entries[j].0 != entries[i].0,
    ensures
        assoc_get(merge_transform(base, entries, ctxv)->0, entries[i].0) == Some(
            render_outcome(entries[i].1, ctxv)->0,
        ),
    decreases entries.len(),
{
    let v = render_outcome(entries[0].1, ctxv)->0;
    let base2 = assoc_set(base, entries[0].0, v);
    assert(forall|j: int| 0 <= j < entries.skip(1).len() ==> entries.skip(1)[j] == entries[j + 1]);
    if i == 0 {
        crate::text::lemma_assoc_set_get(base, entries[0].0, v, entries[0].0);
        lemma_merge_preserves(base2, entries.skip(1), ctxv, entries[0].0);
    } else {
        lemma_merge_overrides(base2, entries.skip(1), ctxv, i - 1);
    }
}

/// Renders every transform entry of `entries` against `ctx_json` and folds
/// the results into `transform`.
pub fn apply_transform(transform: StrMap, entries: &StrMap, ctx_json: &str) -> (r: Result<
    StrMap,
    ResolveError,
>)
    requires
        transform.wf(),
    ensures
        r is Ok <==> merge_transform(transform@, entries@, ctx_json@) is Some,
        r matches Ok(t) ==> merge_transform(transform@, entries@, ctx_json@) == Some(t@) && t.wf(),
        r matches Err(e) ==> e is Template,
{
    let ghost base = transform@;
    let ghost all = entries@;
    let mut acc = transform;
    let n = entries.len();
    let mut i: usize = 0;
    proof {
        assert(all.skip(0) =~= all);
    }
    while i < n
        invariant
            n == entries@.len(),
            all == entries@,
            base == transform@,
            i <= n,
            acc.wf(),
            merge_transform(base, all, ctx_json@) == merge_transform(
                acc@,
                all.skip(i as int),
                ctx_json@,
            ),
        decreases n - i,
    {
        let ghost rem = all.skip(i as int);
        proof {
            assert(rem.len() > 0);
            assert(rem[0] == all[i as int]);
            assert(rem.skip(1) =~= all.skip(i as int + 1));
        }
        let tpl = entries.val_at(i);
        match render_template(tpl.as_str(), ctx_json) {
            Ok(v) => {
                let k = crate::text::clone_string(entries.key_at(i));
                acc.set_pair(k, v);
            },
            Err(e) => {
                proof {
                    assert(render_outcome(all[i as int].1, ctx_json@) is None);
                    assert(merge_transform(acc@, all.skip(i as int), ctx_json@) is None);
                }
                return Err(e);
            },
        }
        i = i + 1;
    }
    proof {
        assert(all.skip(n as int) =~= Seq::<(Seq<char>, Seq<char>)>::empty());
    }
    Ok(acc)
}

/// What a response step hands to the model.
pub struct ResponsePrepared {
    /// The rendered prompt header.
    pub prompt: String,
    /// The resolved model input: the step's `input` argument, or the
    /// working input when the argument is absent.
    pub model_input: String,
}

/// The model input given the resolved arguments and the working input.
pub open spec fn model_input_view(args: Seq<(Seq<char>, Seq<char>)>, input: Seq<char>) -> Seq<
    char,
> {
    match assoc_get(args, "input"@) {
        Some(v) => v,
        None => input,
    }
}

/// The model input a context implies.
pub open spec fn model_input_spec(ctx: RenderCtx) -> Seq<char> {
    model_input_view(ctx.args@, ctx.input@)
}

/// The footer template of a response step; a missing footer renders as the
/// empty template.
pub open spec fn footer_template(cfg: ConfigResponse) -> Seq<char> {
    match cfg.footer {
        Some(f) => f@,
        None => Seq::<char>::empty(),
    }
}

/// Renders the prompt of a response step and resolves the model input.
pub fn response_prepare(cfg: &ConfigResponse, ctx: &RenderCtx) -> (r: Result<
    ResponsePrepared,
    ResolveError,
>)
    ensures
        r is Ok <==> render_outcome(
            joined_lines(cfg.prompt@.map_values(|s: String| s@)),
            ctx.json(),
        ) is Some,
        r matches Ok(p) ==> render_outcome(
            joined_lines(cfg.prompt@.map_values(|s: String| s@)),
            ctx.json(),
        ) == Some(p.prompt@) && p.model_input@ == model_input_spec(*ctx),
        r matches Err(e) ==> e is Template,
{
    let ctx_json = crate::context::ctx_json_text(ctx);
    let prompt = match render_template_lines(&cfg.prompt, ctx_json.as_str()) {
        Ok(p) => p,
        Err(e) => {
            return Err(e);
        },
    };
    let model_input = match ctx.args.get("input") {
        Some(v) => v,
        None => crate::text::clone_string(&ctx.input),
    };
    Ok(ResponsePrepared { prompt, model_input })
}

/// Finishes a buffered response step once the model output is in hand:
/// renders the footer against the output-augmented context, folds the
/// step's transform templates into `transform`, and returns the output
/// with the footer appended beside the updated transform.
pub fn response_finish(
    cfg: &ConfigResponse,
    ctx: &RenderCtx,
    output: &str,
    transform: StrMap,
) -> (r: Result<(String, StrMap), ResolveError>)
    requires
        transform.wf(),
    ensures
        r is Ok <==> (render_outcome(footer_template(*cfg), ctx.json_with_output(output@)) is Some
            && merge_transform(
            transform@,
            optional_entries(cfg.transform),
            ctx.json_with_output(output@),
        ) is Some),
        r matches Ok(p) ==> (render_outcome(footer_template(*cfg), ctx.json_with_output(output@))
            matches Some(f) && p.0@ == output@ + f) && merge_transform(
            transform@,
            optional_entries(cfg.transform),
            ctx.json_with_output(output@),
        ) == Some(p.1@) && p.1.wf(),
        r matches Err(e) ==> e is Template,
{
    let ctx_out = crate::context::ctx_json_with_output(ctx, output);
    let footer = match &cfg.footer {
        Some(f) => render_template(f.as_str(), ctx_out.as_str()),
        None => {
            proof {
                reveal_strlit("");
                assert(""@ =~= Seq::<char>::empty());
            }
            render_template("", ctx_out.as_str())
        },
    };
    let footer = match footer {
        Ok(f) => f,
        Err(e) => {
            return Err(e);
        },
    };
    let merged = match &cfg.transform {
        Some(entries) => apply_transform(transform, entries, ctx_out.as_str()),
        None => Ok(transform),
    };
    let merged = match merged {
        Ok(t) => t,
        Err(e) => {
            return Err(e);
        },
    };
    let mut text = String::from_str(output);
    crate::jsontext::append_raw(&mut text, footer.as_str());
    Ok((text, merged))
}

/// What a terminal, streaming response step hands back: the model call to
/// make and the footer to emit after the model stream ends. The footer is
/// rendered ahead of time, against the plain context — the streamed output
/// never reaches it.
pub struct StreamPrepared {
    pub prompt: String,
    pub model_input: String,
    pub footer: String,
}

/// Renders the prompt and the footer of a streaming response step.
pub fn stream_prepare(cfg: &ConfigResponse, ctx: &RenderCtx) -> (r: Result<
    StreamPrepared,
    ResolveError,
>)
    ensures
        r is Ok <==> (render_outcome(
            joined_lines(cfg.prompt@.map_values(|s: String| s@)),
            ctx.json(),
        ) is Some && render_outcome(footer_template(*cfg), ctx.json()) is Some),
        r matches Ok(p) ==> render_outcome(
            joined_lines(cfg.prompt@.map_values(|s: String| s@)),
            ctx.json(),
        ) == Some(p.prompt@) && render_outcome(footer_template(*cfg), ctx.json()) == Some(p.footer@)
            && p.model_input@ == model_input_spec(*ctx),
        r matches Err(e) ==> e is Template,
{
    let ctx_json = crate::context::ctx_json_text(ctx);
    let prompt = match render_template_lines(&cfg.prompt, ctx_json.as_str()) {
        Ok(p) => p,
        Err(e) => {
            return Err(e);
        },
    };
    let footer = match &cfg.footer {
        Some(f) => render_template(f.as_str(), ctx_json.as_str()),
        None => {
            proof {
                reveal_strlit("");
                assert(""@ =~= Seq::<char>::empty());
            }
            render_template("", ctx_json.as_str())
        },
    };
    let footer = match footer {
        Ok(f) => f,
        Err(e) => {
            return Err(e);
        },
    };
    let model_input = match ctx.args.get("input") {
        Some(v) => v,
        None => crate::text::clone_string(&ctx.input),
    };
    Ok(StreamPrepared { prompt, model_input, footer })
}

} // verus!
