//! The per-step rendering context.
//!
//! Every template is rendered against a context assembled from the current
//! working input, a formatted timestamp, the global properties, the
//! accumulated transform and the step's arguments — optionally extended
//! with the model output, the provider environment and response, or the
//! macro's original input. The context reaches the template engine as JSON
//! text whose exact characters these builders pin down.

use vstd::prelude::*;

use crate::jsontext::{
    append_json_string, append_raw, append_strmap_json, json_string, push_char, strmap_json,
};
use crate::text::StrMap;

verus! {

/// The data every template sees.
pub struct RenderCtx {
    /// The current working text.
    pub input: String,
    /// The formatted, locally adjusted timestamp.
    pub datetime: String,
    /// The global configuration properties.
    pub props: StrMap,
    /// The transform accumulated over the chain so far.
    pub transform: StrMap,
    /// The current step's resolved arguments.
    pub args: StrMap,
}

/// The view-level data every context shape shares.
pub struct CtxView {
    pub input: Seq<char>,
    pub datetime: Seq<char>,
    pub props: Seq<(Seq<char>, Seq<char>)>,
    pub transform: Seq<(Seq<char>, Seq<char>)>,
    pub args: Seq<(Seq<char>, Seq<char>)>,
}

/// The member list shared by every context shape.
pub open spec fn fields_json_of(v: CtxView) -> Seq<char> {
    "\"input\":"@ + json_string(v.input) + ",\"datetime\":"@ + json_string(v.datetime)
        + ",\"props\":"@ + strmap_json(v.props) + ",\"transform\":"@ + strmap_json(v.transform)
        + ",\"args\":"@ + strmap_json(v.args)
}

/// The plain context object.
pub open spec fn ctx_json_of(v: CtxView) -> Seq<char> {
    seq!['{'] + fields_json_of(v) + seq!['}']
}

/// The context extended with the buffered model output.
pub open spec fn ctx_json_with_output_of(v: CtxView, output: Seq<char>) -> Seq<char> {
    seq!['{'] + fields_json_of(v) + ",\"output\":"@ + json_string(output) + seq!['}']
}

/// The context a provider's url and property templates see: the plain
/// fields plus the allow-listed environment values.
pub open spec fn ctx_json_with_env_of(v: CtxView, env: Seq<(Seq<char>, Seq<char>)>) -> Seq<char> {
    seq!['{'] + fields_json_of(v) + ",\"env\":"@ + strmap_json(env) + seq!['}']
}

/// The context a provider's transform templates see: the provider
/// context plus the parsed JSON response, spliced in verbatim.
pub open spec fn ctx_json_with_response_of(
    v: CtxView,
    env: Seq<(Seq<char>, Seq<char>)>,
    response: Seq<char>,
) -> Seq<char> {
    seq!['{'] + fields_json_of(v) + ",\"env\":"@ + strmap_json(env) + ",\"response\":"@
        + response + seq!['}']
}

/// The context a macro step's argument templates see: the plain fields
/// plus the macro's original, immutable input.
pub open spec fn ctx_json_with_macro_of(v: CtxView, macro_input: Seq<char>) -> Seq<char> {
    seq!['{'] + fields_json_of(v) + ",\"macro\":{\"input\":"@ + json_string(macro_input)
        + seq!['}', '}']
}

impl RenderCtx {
    /// The view of this context's shared fields.
    pub open spec fn fields(&self) -> CtxView {
        CtxView {
            input: self.input@,
            datetime: self.datetime@,
            props: self.props@,
            transform: self.transform@,
            args: self.args@,
        }
    }

    /// The member list shared by every context shape.
    pub open spec fn fields_json(&self) -> Seq<char> {
        fields_json_of(self.fields())
    }

    /// The plain context object.
    pub open spec fn json(&self) -> Seq<char> {
        ctx_json_of(self.fields())
    }

    /// The context extended with the buffered model output.
    pub open spec fn json_with_output(&self, output: Seq<char>) -> Seq<char> {
        ctx_json_with_output_of(self.fields(), output)
    }

    /// The context a provider's url and property templates see: the plain
    /// fields plus the allow-listed environment values.
    pub open spec fn json_with_env(&self, env: Seq<(Seq<char>, Seq<char>)>) -> Seq<char> {
        ctx_json_with_env_of(self.fields(), env)
    }

    /// The context a provider's transform templates see: the provider
    /// context plus the parsed JSON response, spliced in verbatim.
    pub open spec fn json_with_response(
        &self,
        env: Seq<(Seq<char>, Seq<char>)>,
        response: Seq<char>,
    ) -> Seq<char> {
        ctx_json_with_response_of(self.fields(), env, response)
    }

    /// The context a macro step's argument templates see: the plain fields
    /// plus the macro's original, immutable input.
    pub open spec fn json_with_macro(&self, macro_input: Seq<char>) -> Seq<char> {
        ctx_json_with_macro_of(self.fields(), macro_input)
    }
}

/// Appends the shared member list.
fn append_ctx_fields(out: &mut String, c: &RenderCtx)
    ensures
        final(out)@ == old(out)@ + c.fields_json(),
{
    append_raw(out, "\"input\":");
    append_json_string(out, c.input.as_str());
    append_raw(out, ",\"datetime\":");
    append_json_string(out, c.datetime.as_str());
    append_raw(out, ",\"props\":");
    append_strmap_json(out, &c.props);
    append_raw(out, ",\"transform\":");
    append_strmap_json(out, &c.transform);
    append_raw(out, ",\"args\":");
    append_strmap_json(out, &c.args);
    proof {
        assert(out@ =~= old(out)@ + c.fields_json());
    }
}

/// The plain context as JSON text.
pub fn ctx_json_text(c: &RenderCtx) -> (r: String)
    ensures
        r@ == c.json(),
{
    let mut out = String::new();
    push_char(&mut out, '{');
    append_ctx_fields(&mut out, c);
    push_char(&mut out, '}');
    proof {
        assert(out@ =~= c.json());
    }
    out
}

/// The output-augmented context as JSON text.
pub fn ctx_json_with_output(c: &RenderCtx, output: &str) -> (r: String)
    ensures
        r@ == c.json_with_output(output@),
{
    let mut out = String::new();
    push_char(&mut out, '{');
    append_ctx_fields(&mut out, c);
    append_raw(&mut out, ",\"output\":");
    append_json_string(&mut out, output);
    push_char(&mut out, '}');
    proof {
        assert(out@ =~= c.json_with_output(output@));
    }
    out
}

/// The provider context as JSON text.
pub fn ctx_json_with_env(c: &RenderCtx, env: &StrMap) -> (r: String)
    ensures
        r@ == c.json_with_env(env@),
{
    let mut out = String::new();
    push_char(&mut out, '{');
    append_ctx_fields(&mut out, c);
    append_raw(&mut out, ",\"env\":");
    append_strmap_json(&mut out, env);
    push_char(&mut out, '}');
    proof {
        assert(out@ =~= c.json_with_env(env@));
    }
    out
}

/// The provider transform context as JSON text. `response_raw` must hold
/// the provider's response as JSON text: it is spliced in verbatim.
pub fn ctx_json_with_response(c: &RenderCtx, env: &StrMap, response_raw: &str) -> (r: String)
    ensures
        r@ == c.json_with_response(env@, response_raw@),
{
    let mut out = String::new();
    push_char(&mut out, '{');
    append_ctx_fields(&mut out, c);
    append_raw(&mut out, ",\"env\":");
    append_strmap_json(&mut out, env);
    append_raw(&mut out, ",\"response\":");
    append_raw(&mut out, response_raw);
    push_char(&mut out, '}');
    proof {
        assert(out@ =~= c.json_with_response(env@, response_raw@));
    }
    out
}

/// The macro-step context as JSON text.
pub fn ctx_json_with_macro(c: &RenderCtx, macro_input: &str) -> (r: String)
    ensures
        r@ == c.json_with_macro(macro_input@),
{
    let mut out = String::new();
    push_char(&mut out, '{');
    append_ctx_fields(&mut out, c);
    append_raw(&mut out, ",\"macro\":{\"input\":");
    append_json_string(&mut out, macro_input);
    push_char(&mut out, '}');
    push_char(&mut out, '}');
    proof {
        assert(out@ =~= c.json_with_macro(macro_input@));
    }
    out
}

} // verus!
