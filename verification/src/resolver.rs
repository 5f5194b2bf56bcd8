//! The task-resolution state machine.
//!
//! A resolver walks one request's task graph: it dispatches a task id,
//! iterates macro steps over an explicit frame stack, and stops at each
//! point where outside work is due — a model completion or a provider
//! call. The caller performs that work and feeds the outcome back in; the
//! machine itself is deterministic, and every transition's contract pins
//! the next state and the emitted action exactly.
//!
//! Macro recursion is depth-bounded: a chain of nested macros deeper than
//! the budget fails instead of recursing forever.

use vstd::prelude::*;

use crate::config::{
    has_key, lookup, parse_task, task_kind_spec, task_name_spec, BotConfig, MacroStep, TaskKind,
};
use crate::context::{
    ctx_json_of, ctx_json_with_env_of, ctx_json_with_macro_of, ctx_json_with_output_of,
    ctx_json_with_response_of, CtxView, RenderCtx,
};
use crate::error::ResolveError;
use crate::jsontext::joined_lines;
use crate::provider::{
    allow_names, env_filter, provider_prepare_spec, render_pairs, set_all, PrepOutcome, Provider,
    ProviderRequest,
};
use crate::render::{json_valid, render_outcome};
use crate::resolve::{footer_template, merge_transform, model_input_view, optional_entries};
use crate::text::{assoc_get, StrMap};

verus! {

/// How many nested macro frames one request may open.
pub const MAX_RESOLVE_DEPTH: usize = 64;

/// How a dispatched task delivers its result.
#[derive(Debug, Clone, Copy, PartialEq, Eq, Structural)]
pub enum Mode {
    /// The terminal task of the request: its chunks go live to the caller.
    Streaming,
    /// Stream semantics, buffered delivery: a nested macro's terminal task.
    Drained,
    /// An intermediate step: fully buffered, transform evaluated.
    Buffered,
}

/// One open macro invocation.
pub struct MacroFrame {
    /// The macro's name segment.
    pub name: String,
    /// The next step to process.
    pub idx: usize,
    /// The macro's original input, immutable through the whole macro.
    pub macro_input: String,
    /// The arguments the macro itself was invoked with.
    pub args: StrMap,
    /// Whether the terminal step streams live (or is drained).
    pub streaming: bool,
}

/// Where the machine stands.
pub enum Phase {
    /// A task id waits to be dispatched.
    Dispatch { task: String, mode: Mode },
    /// The top frame's current step waits to be processed.
    StepArgs,
    /// A buffered model call is out; its full output is due.
    AwaitModelBuffered { name: String },
    /// A drained model call is out; output plus this footer become input.
    AwaitModelDrained { footer: String },
    /// A provider definition is due from the caller.
    AwaitProviderDef { name: String },
    /// A provider HTTP answer is due.
    AwaitProviderResponse { name: String, env: StrMap },
    /// The terminal stream action has been emitted.
    Done,
    /// A fatal error ended the chain.
    Failed,
}

/// What the caller must do next.
#[derive(Debug)]
pub enum StepAction {
    /// Run one buffered completion and feed the whole output back.
    CallModel { prompt: String, input: String },
    /// Run the terminal completion: forward its chunks live, then emit
    /// exactly one footer item.
    StreamModel { prompt: String, input: String, footer: String },
    /// Load the named provider definition and feed it back.
    NeedProvider { name: String },
    /// Perform the assembled HTTP call and feed the JSON answer back.
    CallProvider { request: ProviderRequest },
}

/// One turn of the machine.
#[derive(Debug)]
pub enum Tick {
    /// Outside work is due, or the request's stream begins.
    Action(StepAction),
    /// The machine can take another turn at once.
    Working,
}

/// The task-resolution engine for one request.
pub struct Resolver<'a> {
    config: &'a BotConfig,
    datetime: String,
    input: String,
    transform: StrMap,
    args: StrMap,
    stack: Vec<MacroFrame>,
    phase: Phase,
    budget: usize,
    calls: Ghost<Seq<(Seq<char>, bool)>>,
}

/// The resolution order of a macro's steps: every step but the last is a
/// buffered resolution, the last one alone streams — in declared order.
pub open spec fn macro_schedule(steps: Seq<MacroStep>) -> Seq<(Seq<char>, bool)> {
    Seq::new(steps.len(), |i: int| (steps[i].task@, i == steps.len() - 1))
}

/// What the schedule of a non-empty macro looks like: exactly its length,
/// the first `N-1` entries buffered, the last entry — and only it —
/// streaming, each naming its step's task.
pub proof fn lemma_macro_schedule_shape(steps: Seq<MacroStep>)
    requires
        steps.len() >= 1,
    ensures
        macro_schedule(steps).len() == steps.len(),
        forall|i: int|
            0 <= i < steps.len() - 1 ==> macro_schedule(steps)[i] == (steps[i].task@, false),
        macro_schedule(steps)[steps.len() - 1] == (steps[steps.len() - 1].task@, true),
{
}

impl<'a> Resolver<'a> {
    /// The configuration the machine resolves against.
    pub closed spec fn cfg(&self) -> BotConfig {
        *self.config
    }

    /// The timestamp every context of this request carries.
    pub closed spec fn datetimev(&self) -> Seq<char> {
        self.datetime@
    }

    /// The current working input.
    pub closed spec fn inputv(&self) -> Seq<char> {
        self.input@
    }

    /// The transform accumulated so far.
    pub closed spec fn transformv(&self) -> Seq<(Seq<char>, Seq<char>)> {
        self.transform@
    }

    /// The current step's resolved arguments.
    pub closed spec fn argsv(&self) -> Seq<(Seq<char>, Seq<char>)> {
        self.args@
    }

    /// The open macro frames, outermost first.
    pub closed spec fn stackv(&self) -> Seq<MacroFrame> {
        self.stack@
    }

    /// Where the machine stands.
    pub closed spec fn phase_spec(&self) -> Phase {
        self.phase
    }

    /// The remaining frame budget.
    pub closed spec fn budgetv(&self) -> nat {
        self.budget as nat
    }

    /// Every step resolution so far: the task id and whether it was the
    /// streaming one. Over one frame's lifetime these are exactly
    /// `macro_schedule` of its steps, in order.
    pub closed spec fn callsv(&self) -> Seq<(Seq<char>, bool)> {
        self.calls@
    }

    /// The view of the context the next template would see.
    pub open spec fn ctx_view(&self) -> CtxView {
        CtxView {
            input: self.inputv(),
            datetime: self.datetimev(),
            props: self.cfg().props@,
            transform: self.transformv(),
            args: self.argsv(),
        }
    }

    /// A frame that can still be worked on.
    pub open spec fn frame_ok(&self, f: MacroFrame) -> bool {
        &&& has_key(self.cfg().macros@, f.name@)
        &&& f.args.wf()
        &&& f.idx < lookup(self.cfg().macros@, f.name@).steps@.len()
    }

    /// The machine invariant.
    pub open spec fn wf(&self) -> bool {
        &&& self.cfg().wf()
        &&& crate::text::unique_keys(self.transformv())
        &&& crate::text::unique_keys(self.argsv())
        &&& (forall|i: int| 0 <= i < self.stackv().len() ==> self.frame_ok(#[trigger] self.stackv()[i]))
        &&& (forall|i: int|
            0 <= i < self.stackv().len() ==> ((#[trigger] self.stackv()[i]).streaming <==> i == 0))
        &&& match self.phase_spec() {
            Phase::Dispatch { task, mode } => if mode is Streaming {
                self.stackv().len() == 0
            } else {
                self.stackv().len() > 0
            },
            Phase::StepArgs => self.stackv().len() > 0,
            Phase::AwaitModelBuffered { name } => self.stackv().len() > 0 && has_key(
                self.cfg().responses@,
                name@,
            ),
            Phase::AwaitModelDrained { footer } => self.stackv().len() > 0,
            Phase::AwaitProviderDef { name } => self.stackv().len() > 0 && has_key(
                self.cfg().providers@,
                name@,
            ),
            Phase::AwaitProviderResponse { name, env } => self.stackv().len() > 0 && has_key(
                self.cfg().providers@,
                name@,
            ) && env.wf(),
            _ => true,
        }
    }

    /// Whether the machine wants another `tick`.
    pub fn needs_tick(&self) -> (r: bool)
        ensures
            r == (self.phase_spec() is Dispatch || self.phase_spec() is StepArgs),
    {
        match &self.phase {
            Phase::Dispatch { .. } => true,
            Phase::StepArgs => true,
            _ => false,
        }
    }

    /// Whether the machine has emitted its terminal stream action.
    pub fn is_done(&self) -> (r: bool)
        ensures
            r == (self.phase_spec() is Done),
    {
        match &self.phase {
            Phase::Done => true,
            _ => false,
        }
    }

    /// A fresh machine about to resolve `task` as the request's stream,
    /// with an empty transform and no arguments.
    pub fn start(config: &'a BotConfig, datetime: String, task: String, input: String) -> (r:
        Resolver<'a>)
        requires
            config.wf(),
        ensures
            r.wf(),
            r.cfg() == *config,
            r.datetimev() == datetime@,
            r.inputv() == input@,
            r.transformv() == Seq::<(Seq<char>, Seq<char>)>::empty(),
            r.argsv() == Seq::<(Seq<char>, Seq<char>)>::empty(),
            r.stackv() == Seq::<MacroFrame>::empty(),
            r.callsv() == Seq::<(Seq<char>, bool)>::empty(),
            r.phase_spec() matches Phase::Dispatch { task: t, mode } && t@ == task@
                && mode is Streaming,
    {
        let r = Resolver {
            config,
            datetime,
            input,
            transform: StrMap::new(),
            args: StrMap::new(),
            stack: Vec::new(),
            phase: Phase::Dispatch { task, mode: Mode::Streaming },
            budget: MAX_RESOLVE_DEPTH,
            calls: Ghost(Seq::empty()),
        };
        proof {
            assert(r.stackv() =~= Seq::<MacroFrame>::empty());
        }
        r
    }

    /// The context the next template sees, copied out of the machine.
    fn make_ctx(&self) -> (r: RenderCtx)
        ensures
            r.fields() == self.ctx_view(),
    {
        RenderCtx {
            input: crate::text::clone_string(&self.input),
            datetime: crate::text::clone_string(&self.datetime),
            props: self.config.props.duplicate(),
            transform: self.transform.duplicate(),
            args: self.args.duplicate(),
        }
    }

    /// The context a macro step's argument templates see: the same, but
    /// with the owning frame's invocation arguments.
    fn make_ctx_with_args(&self, args: &StrMap) -> (r: RenderCtx)
        ensures
            r.fields() == (CtxView {
                input: self.inputv(),
                datetime: self.datetimev(),
                props: self.cfg().props@,
                transform: self.transformv(),
                args: args@,
            }),
    {
        RenderCtx {
            input: crate::text::clone_string(&self.input),
            datetime: crate::text::clone_string(&self.datetime),
            props: self.config.props.duplicate(),
            transform: self.transform.duplicate(),
            args: args.duplicate(),
        }
    }

    /// Takes one turn: dispatches a waiting task id or processes the top
    /// frame's current step.
    pub fn tick(&mut self) -> (r: Result<Tick, ResolveError>)
        requires
            old(self).wf(),
            old(self).phase_spec() is Dispatch || old(self).phase_spec() is StepArgs,
        ensures
            final(self).wf(),
            final(self).cfg() == old(self).cfg(),
            final(self).datetimev() == old(self).datetimev(),
            old(self).phase_spec() matches Phase::Dispatch { task, mode } ==> tick_dispatch_post(
                *old(self),
                *final(self),
                task@,
                mode,
                r,
            ),
            old(self).phase_spec() is StepArgs ==> tick_step_post(*old(self), *final(self), r),
    {
        let mut taken = Phase::Failed;
        core::mem::swap(&mut self.phase, &mut taken);
        match taken {
            Phase::Dispatch { task, mode } => self.dispatch(task, mode),
            Phase::StepArgs => self.process_step(),
            _ => {
                proof {
                    assert(false);
                }
                Err(ResolveError::ConfigValidation { detail: String::new() })
            },
        }
    }

    /// Dispatches one task id in the given mode. `self.phase` has already
    /// been taken out and holds `Failed`.
    fn dispatch(&mut self, task: String, mode: Mode) -> (r: Result<Tick, ResolveError>)
        requires
            old(self).wf(),
            old(self).phase_spec() is Failed,
            mode is Streaming ==> old(self).stackv().len() == 0,
            !(mode is Streaming) ==> old(self).stackv().len() > 0,
        ensures
            final(self).wf(),
            final(self).cfg() == old(self).cfg(),
            final(self).datetimev() == old(self).datetimev(),
            tick_dispatch_post(*old(self), *final(self), task@, mode, r),
    {
        let config = self.config;
        let (kind, name) = parse_task(task.as_str());
        match kind {
            TaskKind::Responses => {
                let cfg = match crate::config::assoc_find(&config.responses, name.as_str()) {
                    Some(c) => c,
                    None => {
                        return Err(ResolveError::UnresolvedTask { task });
                    },
                };
                proof {
                    let i = choose|i: int|
                        0 <= i < config.responses@.len() && config.responses@[i].0@ == name@
                            && config.responses@[i].1 == *cfg;
                    crate::config::lemma_lookup(config.responses@, name@, i);
                }
                let ctx = self.make_ctx();
                match mode {
                    Mode::Streaming => {
                        match crate::resolve::stream_prepare(cfg, &ctx) {
                            Ok(p) => {
                                self.phase = Phase::Done;
                                Ok(
                                    Tick::Action(
                                        StepAction::StreamModel {
                                            prompt: p.prompt,
                                            input: p.model_input,
                                            footer: p.footer,
                                        },
                                    ),
                                )
                            },
                            Err(e) => Err(e),
                        }
                    },
                    Mode::Drained => {
                        match crate::resolve::stream_prepare(cfg, &ctx) {
                            Ok(p) => {
                                self.phase = Phase::AwaitModelDrained { footer: p.footer };
                                Ok(
                                    Tick::Action(
                                        StepAction::CallModel {
                                            prompt: p.prompt,
                                            input: p.model_input,
                                        },
                                    ),
                                )
                            },
                            Err(e) => Err(e),
                        }
                    },
                    Mode::Buffered => {
                        match crate::resolve::response_prepare(cfg, &ctx) {
                            Ok(p) => {
                                self.phase = Phase::AwaitModelBuffered { name };
                                Ok(
                                    Tick::Action(
                                        StepAction::CallModel {
                                            prompt: p.prompt,
                                            input: p.model_input,
                                        },
                                    ),
                                )
                            },
                            Err(e) => Err(e),
                        }
                    },
                }
            },
            TaskKind::Macros => {
                let mac = match crate::config::assoc_find(&config.macros, name.as_str()) {
                    Some(m) => m,
                    None => {
                        return Err(ResolveError::UnresolvedTask { task });
                    },
                };
                proof {
                    let i = choose|i: int|
                        0 <= i < config.macros@.len() && config.macros@[i].0@ == name@
                            && config.macros@[i].1 == *mac;
                    crate::config::lemma_lookup(config.macros@, name@, i);
                }
                if mac.steps.len() == 0 {
                    let mut detail = String::new();
                    crate::jsontext::append_raw(&mut detail, "macro `");
                    crate::jsontext::append_raw(&mut detail, task.as_str());
                    crate::jsontext::append_raw(&mut detail, "` has no steps");
                    return Err(ResolveError::ConfigValidation { detail });
                }
                if self.budget == 0 {
                    let mut detail = String::new();
                    crate::jsontext::append_raw(&mut detail, "macro recursion is too deep at `");
                    crate::jsontext::append_raw(&mut detail, task.as_str());
                    crate::jsontext::append_raw(&mut detail, "`");
                    return Err(ResolveError::ConfigValidation { detail });
                }
                self.budget = self.budget - 1;
                let frame = MacroFrame {
                    name,
                    idx: 0,
                    macro_input: crate::text::clone_string(&self.input),
                    args: self.args.duplicate(),
                    streaming: match mode {
                        Mode::Streaming => true,
                        _ => false,
                    },
                };
                self.stack.push(frame);
                self.phase = Phase::StepArgs;
                Ok(Tick::Working)
            },
            TaskKind::Providers => {
                match mode {
                    Mode::Buffered => {
                        let cfg = match crate::config::assoc_find(
                            &config.providers,
                            name.as_str(),
                        ) {
                            Some(c) => c,
                            None => {
                                return Err(ResolveError::UnresolvedTask { task });
                            },
                        };
                        proof {
                            let i = choose|i: int|
                                0 <= i < config.providers@.len() && config.providers@[i].0@
                                    == name@ && config.providers@[i].1 == *cfg;
                            crate::config::lemma_lookup(config.providers@, name@, i);
                        }
                        let provider = crate::text::clone_string(&cfg.provider);
                        self.phase = Phase::AwaitProviderDef { name };
                        Ok(Tick::Action(StepAction::NeedProvider { name: provider }))
                    },
                    _ => Err(ResolveError::UnresolvedStreamableTask { task }),
                }
            },
            TaskKind::Other => {
                match mode {
                    Mode::Buffered => Err(ResolveError::UnsupportedBufferedTask { task }),
                    _ => Err(ResolveError::UnresolvedStreamableTask { task }),
                }
            },
        }
    }

    /// Processes the top frame's current step: renders its argument
    /// templates against the macro context, updates the working input,
    /// and leaves the step's task waiting for dispatch.
    fn process_step(&mut self) -> (r: Result<Tick, ResolveError>)
        requires
            old(self).wf(),
            old(self).phase_spec() is Failed,
            old(self).stackv().len() > 0,
        ensures
            final(self).wf(),
            final(self).cfg() == old(self).cfg(),
            final(self).datetimev() == old(self).datetimev(),
            tick_step_post(*old(self), *final(self), r),
    {
        let config = self.config;
        let fi = self.stack.len() - 1;
        let mac = match crate::config::assoc_find(&config.macros, self.stack[fi].name.as_str()) {
            Some(m) => m,
            None => {
                proof {
                    assert(false);
                }
                return Err(ResolveError::ConfigValidation { detail: String::new() });
            },
        };
        proof {
            let i = choose|i: int|
                0 <= i < config.macros@.len() && config.macros@[i].0@ == self.stack@[fi as int].name@
                    && config.macros@[i].1 == *mac;
            crate::config::lemma_lookup(config.macros@, self.stack@[fi as int].name@, i);
        }
        let idx = self.stack[fi].idx;
        let nsteps = mac.steps.len();
        let ctx = self.make_ctx_with_args(&self.stack[fi].args);
        let ctx_json = crate::context::ctx_json_with_macro(&ctx, self.stack[fi].macro_input.as_str());
        let rendered = match crate::provider::render_entry_pairs(
            &mac.steps[idx].args,
            ctx_json.as_str(),
        ) {
            Ok(v) => v,
            Err(e) => {
                return Err(e);
            },
        };
        let newargs = crate::provider::pairs_to_map(rendered);
        let newinput = match newargs.get("input") {
            Some(v) => v,
            None => crate::text::clone_string(&self.input),
        };
        let task = crate::text::clone_string(&mac.steps[idx].task);
        self.input = newinput;
        self.args = newargs;
        self.calls = Ghost(self.calls@.push((task@, idx == nsteps - 1)));
        if idx == nsteps - 1 {
            let frame = match self.stack.pop() {
                Some(f) => f,
                None => {
                    proof {
                        assert(false);
                    }
                    return Err(ResolveError::ConfigValidation { detail: String::new() });
                },
            };
            let mode = if frame.streaming {
                Mode::Streaming
            } else {
                Mode::Drained
            };
            self.phase = Phase::Dispatch { task, mode };
        } else {
            let mut frame = match self.stack.pop() {
                Some(f) => f,
                None => {
                    proof {
                        assert(false);
                    }
                    return Err(ResolveError::ConfigValidation { detail: String::new() });
                },
            };
            frame.idx = idx + 1;
            self.stack.push(frame);
            self.phase = Phase::Dispatch { task, mode: Mode::Buffered };
        }
        Ok(Tick::Working)
    }
}

impl<'a> Resolver<'a> {
    /// Feeds back the full output of a buffered model call. For a plain
    /// buffered step the footer is rendered against the output-augmented
    /// context and the step's transform templates are folded in; for a
    /// drained terminal step the pre-rendered footer is appended and the
    /// transform stays as it is. Either way the result becomes the
    /// working input of the next step.
    pub fn model_output(&mut self, output: String) -> (r: Result<(), ResolveError>)
        requires
            old(self).wf(),
            old(self).phase_spec() is AwaitModelBuffered || old(
                self,
            ).phase_spec() is AwaitModelDrained,
        ensures
            final(self).wf(),
            final(self).cfg() == old(self).cfg(),
            final(self).datetimev() == old(self).datetimev(),
            model_output_post(*old(self), *final(self), output@, r),
    {
        let mut taken = Phase::Failed;
        core::mem::swap(&mut self.phase, &mut taken);
        match taken {
            Phase::AwaitModelBuffered { name } => {
                let config = self.config;
                let cfg = match crate::config::assoc_find(&config.responses, name.as_str()) {
                    Some(c) => c,
                    None => {
                        proof {
                            assert(false);
                        }
                        return Err(ResolveError::ConfigValidation { detail: String::new() });
                    },
                };
                proof {
                    let i = choose|i: int|
                        0 <= i < config.responses@.len() && config.responses@[i].0@ == name@
                            && config.responses@[i].1 == *cfg;
                    crate::config::lemma_lookup(config.responses@, name@, i);
                }
                let ctx = self.make_ctx();
                let mut transform = StrMap::new();
                core::mem::swap(&mut self.transform, &mut transform);
                match crate::resolve::response_finish(cfg, &ctx, output.as_str(), transform) {
                    Ok(p) => {
                        self.input = p.0;
                        self.transform = p.1;
                        self.phase = Phase::StepArgs;
                        Ok(())
                    },
                    Err(e) => Err(e),
                }
            },
            Phase::AwaitModelDrained { footer } => {
                let mut text = output;
                crate::jsontext::append_raw(&mut text, footer.as_str());
                self.input = text;
                self.phase = Phase::StepArgs;
                Ok(())
            },
            _ => {
                proof {
                    assert(false);
                }
                Err(ResolveError::ConfigValidation { detail: String::new() })
            },
        }
    }

    /// Feeds back a loaded provider definition, with the caller's
    /// environment pairs: the definition's allow list filters them, the
    /// provider call is fully prepared — url, properties, rules, the
    /// required check, the outgoing parts — and the assembled request is
    /// handed out, all before any network traffic.
    pub fn provider_def(&mut self, def: Provider, env_pairs: Vec<(String, String)>) -> (r: Result<
        StepAction,
        ResolveError,
    >)
        requires
            old(self).wf(),
            old(self).phase_spec() is AwaitProviderDef,
        ensures
            final(self).wf(),
            final(self).cfg() == old(self).cfg(),
            final(self).datetimev() == old(self).datetimev(),
            provider_def_post(*old(self), *final(self), def, env_pairs@, r),
    {
        let mut taken = Phase::Failed;
        core::mem::swap(&mut self.phase, &mut taken);
        match taken {
            Phase::AwaitProviderDef { name } => {
                let config = self.config;
                let cfg = match crate::config::assoc_find(&config.providers, name.as_str()) {
                    Some(c) => c,
                    None => {
                        proof {
                            assert(false);
                        }
                        return Err(ResolveError::ConfigValidation { detail: String::new() });
                    },
                };
                proof {
                    let i = choose|i: int|
                        0 <= i < config.providers@.len() && config.providers@[i].0@ == name@
                            && config.providers@[i].1 == *cfg;
                    crate::config::lemma_lookup(config.providers@, name@, i);
                }
                let env = crate::provider::filter_env(&env_pairs, &def);
                let ctx = self.make_ctx();
                match crate::provider::provider_prepare(cfg, &def, &ctx, &env) {
                    Ok(request) => {
                        self.phase = Phase::AwaitProviderResponse { name, env };
                        Ok(StepAction::CallProvider { request })
                    },
                    Err(e) => Err(e),
                }
            },
            _ => {
                proof {
                    assert(false);
                }
                Err(ResolveError::ConfigValidation { detail: String::new() })
            },
        }
    }

    /// Feeds back the provider's HTTP answer: a non-JSON answer fails the
    /// chain; otherwise the binding's transform templates are folded in
    /// and the working input becomes empty — a provider contributes only
    /// transform state, never visible text.
    pub fn provider_response(&mut self, body: String) -> (r: Result<(), ResolveError>)
        requires
            old(self).wf(),
            old(self).phase_spec() is AwaitProviderResponse,
        ensures
            final(self).wf(),
            final(self).cfg() == old(self).cfg(),
            final(self).datetimev() == old(self).datetimev(),
            provider_response_post(*old(self), *final(self), body@, r),
    {
        let mut taken = Phase::Failed;
        core::mem::swap(&mut self.phase, &mut taken);
        match taken {
            Phase::AwaitProviderResponse { name, env } => {
                let config = self.config;
                let cfg = match crate::config::assoc_find(&config.providers, name.as_str()) {
                    Some(c) => c,
                    None => {
                        proof {
                            assert(false);
                        }
                        return Err(ResolveError::ConfigValidation { detail: String::new() });
                    },
                };
                proof {
                    let i = choose|i: int|
                        0 <= i < config.providers@.len() && config.providers@[i].0@ == name@
                            && config.providers@[i].1 == *cfg;
                    crate::config::lemma_lookup(config.providers@, name@, i);
                }
                let ctx = self.make_ctx();
                let mut transform = StrMap::new();
                core::mem::swap(&mut self.transform, &mut transform);
                match crate::provider::provider_finish(cfg, &ctx, &env, body.as_str(), transform) {
                    Ok(t) => {
                        self.transform = t;
                        self.input = String::new();
                        self.phase = Phase::StepArgs;
                        Ok(())
                    },
                    Err(e) => Err(e),
                }
            },
            _ => {
                proof {
                    assert(false);
                }
                Err(ResolveError::ConfigValidation { detail: String::new() })
            },
        }
    }

    /// Notes that no definition could be loaded for the awaited provider:
    /// the chain fails with the definition's name.
    pub fn fail_provider_missing(&mut self) -> (e: ResolveError)
        requires
            old(self).wf(),
            old(self).phase_spec() is AwaitProviderDef,
        ensures
            final(self).wf(),
            final(self).phase_spec() is Failed,
            old(self).phase_spec() matches Phase::AwaitProviderDef { name } ==> e
                matches ResolveError::ProviderNotFound { provider } && provider@ == lookup(
                old(self).cfg().providers@,
                name@,
            ).provider@,
    {
        let mut taken = Phase::Failed;
        core::mem::swap(&mut self.phase, &mut taken);
        match taken {
            Phase::AwaitProviderDef { name } => {
                let config = self.config;
                let cfg = match crate::config::assoc_find(&config.providers, name.as_str()) {
                    Some(c) => c,
                    None => {
                        proof {
                            assert(false);
                        }
                        return ResolveError::ConfigValidation { detail: String::new() };
                    },
                };
                proof {
                    let i = choose|i: int|
                        0 <= i < config.providers@.len() && config.providers@[i].0@ == name@
                            && config.providers@[i].1 == *cfg;
                    crate::config::lemma_lookup(config.providers@, name@, i);
                }
                ResolveError::ProviderNotFound {
                    provider: crate::text::clone_string(&cfg.provider),
                }
            },
            _ => {
                proof {
                    assert(false);
                }
                ResolveError::ConfigValidation { detail: String::new() }
            },
        }
    }

    /// Notes that the provider's HTTP call itself failed: the chain fails
    /// with the caller's description.
    pub fn fail_provider_call(&mut self, detail: String) -> (e: ResolveError)
        requires
            old(self).wf(),
            old(self).phase_spec() is AwaitProviderResponse,
        ensures
            final(self).wf(),
            final(self).phase_spec() is Failed,
            e matches ResolveError::ProviderCall { detail: d } && d == detail,
    {
        self.phase = Phase::Failed;
        proof {
            assert(self.stackv() == old(self).stackv());
            assert(forall|i: int|
                0 <= i < self.stackv().len() ==> self.frame_ok(#[trigger] self.stackv()[i]));
        }
        ResolveError::ProviderCall { detail }
    }

    /// Notes that the model transport failed: the chain fails with the
    /// caller's description. Nothing is retried here.
    pub fn fail_transport(&mut self, detail: String) -> (e: ResolveError)
        requires
            old(self).wf(),
        ensures
            final(self).wf(),
            final(self).phase_spec() is Failed,
            e matches ResolveError::Transport { detail: d } && d == detail,
    {
        self.phase = Phase::Failed;
        proof {
            assert(self.stackv() == old(self).stackv());
            assert(forall|i: int|
                0 <= i < self.stackv().len() ==> self.frame_ok(#[trigger] self.stackv()[i]));
        }
        ResolveError::Transport { detail }
    }
}

/// What feeding a buffered model output back does to the machine.
pub open spec fn model_output_post(
    pre: Resolver,
    post: Resolver,
    output: Seq<char>,
    r: Result<(), ResolveError>,
) -> bool {
    match pre.phase_spec() {
        Phase::AwaitModelBuffered { name } => {
            let cfg = lookup(pre.cfg().responses@, name@);
            let ctxo = ctx_json_with_output_of(pre.ctx_view(), output);
            let foot = render_outcome(footer_template(cfg), ctxo);
            let merged = merge_transform(pre.transformv(), optional_entries(cfg.transform), ctxo);
            if foot is Some && merged is Some {
                &&& r is Ok
                &&& post.inputv() == output + foot->0
                &&& post.transformv() == merged->0
                &&& post.argsv() == pre.argsv()
                &&& post.stackv() == pre.stackv()
                &&& post.callsv() == pre.callsv()
                &&& post.budgetv() == pre.budgetv()
                &&& post.phase_spec() is StepArgs
            } else {
                r matches Err(e) && e is Template && post.phase_spec() is Failed
            }
        },
        Phase::AwaitModelDrained { footer } => {
            &&& r is Ok
            &&& post.inputv() == output + footer@
            &&& post.transformv() == pre.transformv()
            &&& post.argsv() == pre.argsv()
            &&& post.stackv() == pre.stackv()
            &&& post.callsv() == pre.callsv()
            &&& post.budgetv() == pre.budgetv()
            &&& post.phase_spec() is StepArgs
        },
        _ => true,
    }
}

/// Resolving a buffered step twice, with the same configuration, the
/// same context state and the same upstream output, yields the same
/// result text and the same resulting transform: nothing in a step's
/// resolution depends on anything but its inputs.
pub proof fn lemma_resolution_idempotent(
    pre1: Resolver,
    post1: Resolver,
    pre2: Resolver,
    post2: Resolver,
    output: Seq<char>,
    r1: Result<(), ResolveError>,
    r2: Result<(), ResolveError>,
)
    requires
        pre1.phase_spec() == pre2.phase_spec(),
        pre1.phase_spec() is AwaitModelBuffered,
        pre1.cfg() == pre2.cfg(),
        pre1.ctx_view() == pre2.ctx_view(),
        model_output_post(pre1, post1, output, r1),
        model_output_post(pre2, post2, output, r2),
    ensures
        r1 is Ok <==> r2 is Ok,
        r1 is Ok ==> post1.inputv() == post2.inputv() && post1.transformv() == post2.transformv(),
{
}

/// What feeding a provider definition back does to the machine.
pub open spec fn provider_def_post(
    pre: Resolver,
    post: Resolver,
    def: Provider,
    env_pairs: Seq<(String, String)>,
    r: Result<StepAction, ResolveError>,
) -> bool {
    match pre.phase_spec() {
        Phase::AwaitProviderDef { name } => {
            let cfg = lookup(pre.cfg().providers@, name@);
            let envm = env_filter(
                Seq::<(Seq<char>, Seq<char>)>::empty(),
                env_pairs,
                allow_names(def.env),
            );
            let out = provider_prepare_spec(cfg, def, ctx_json_with_env_of(pre.ctx_view(), envm));
            match out {
                PrepOutcome::Ready { url, query, body, headers } => {
                    &&& r matches Ok(a)
                    &&& a matches StepAction::CallProvider { request } && request.url@ == url
                        && request.query@ == query && request.body@ == body && request.headers@
                        == headers
                    &&& post.phase_spec() matches Phase::AwaitProviderResponse { name: n, env }
                        && n@ == name@ && env@ == envm
                    &&& core_unchanged(pre, post)
                },
                PrepOutcome::BadTemplate => r matches Err(e) && e is Template
                    && post.phase_spec() is Failed,
                PrepOutcome::NoRule { prop } => r matches Err(e) && e
                    matches ResolveError::PropRuleMissing { prop: p } && p@ == prop
                    && post.phase_spec() is Failed,
                PrepOutcome::MissingRequired { prop } => r matches Err(e) && e
                    matches ResolveError::RequiredPropMissing { prop: p } && p@ == prop
                    && post.phase_spec() is Failed,
            }
        },
        _ => true,
    }
}

/// What feeding the provider's HTTP answer back does to the machine.
pub open spec fn provider_response_post(
    pre: Resolver,
    post: Resolver,
    body: Seq<char>,
    r: Result<(), ResolveError>,
) -> bool {
    match pre.phase_spec() {
        Phase::AwaitProviderResponse { name, env } => {
            if !json_valid(body) {
                r matches Err(e) && e is ProviderCall && post.phase_spec() is Failed
            } else {
                let cfg = lookup(pre.cfg().providers@, name@);
                let merged = merge_transform(
                    pre.transformv(),
                    optional_entries(cfg.transform),
                    ctx_json_with_response_of(pre.ctx_view(), env@, body),
                );
                match merged {
                    Some(t) => {
                        &&& r is Ok
                        &&& post.transformv() == t
                        &&& post.inputv() == Seq::<char>::empty()
                        &&& post.argsv() == pre.argsv()
                        &&& post.stackv() == pre.stackv()
                        &&& post.callsv() == pre.callsv()
                        &&& post.budgetv() == pre.budgetv()
                        &&& post.phase_spec() is StepArgs
                    },
                    None => r matches Err(e) && e is Template && post.phase_spec() is Failed,
                }
            }
        },
        _ => true,
    }
}

/// What dispatching `task` in `mode` does to the machine.
pub open spec fn tick_dispatch_post(
    pre: Resolver,
    post: Resolver,
    task: Seq<char>,
    mode: Mode,
    r: Result<Tick, ResolveError>,
) -> bool {
    let kind = task_kind_spec(task);
    let name = task_name_spec(task);
    let ctxv = ctx_json_of(pre.ctx_view());
    if kind is Responses {
        if !has_key(pre.cfg().responses@, name) {
            r matches Err(e) && e matches ResolveError::UnresolvedTask { task: t } && t@ == task
                && post.phase_spec() is Failed
        } else {
            let cfg = lookup(pre.cfg().responses@, name);
            let promptv = joined_lines(cfg.prompt@.map_values(|s: String| s@));
            let prompt_ok = render_outcome(promptv, ctxv);
            let footer_ok = render_outcome(footer_template(cfg), ctxv);
            match mode {
                Mode::Streaming => if prompt_ok is Some && footer_ok is Some {
                    &&& r matches Ok(t)
                    &&& t matches Tick::Action(a)
                    &&& a matches StepAction::StreamModel { prompt, input, footer }
                        && prompt_ok == Some(prompt@) && footer_ok == Some(footer@) && input@
                        == model_input_view(pre.argsv(), pre.inputv())
                    &&& post.phase_spec() is Done
                    &&& core_unchanged(pre, post)
                } else {
                    r matches Err(e) && e is Template && post.phase_spec() is Failed
                },
                Mode::Drained => if prompt_ok is Some && footer_ok is Some {
                    &&& r matches Ok(t)
                    &&& t matches Tick::Action(a)
                    &&& a matches StepAction::CallModel { prompt, input } && prompt_ok == Some(
                        prompt@,
                    ) && input@ == model_input_view(pre.argsv(), pre.inputv())
                    &&& post.phase_spec() matches Phase::AwaitModelDrained { footer } && footer_ok
                        == Some(footer@)
                    &&& core_unchanged(pre, post)
                } else {
                    r matches Err(e) && e is Template && post.phase_spec() is Failed
                },
                Mode::Buffered => if prompt_ok is Some {
                    &&& r matches Ok(t)
                    &&& t matches Tick::Action(a)
                    &&& a matches StepAction::CallModel { prompt, input } && prompt_ok == Some(
                        prompt@,
                    ) && input@ == model_input_view(pre.argsv(), pre.inputv())
                    &&& post.phase_spec() matches Phase::AwaitModelBuffered { name: n } && n@
                        == name
                    &&& core_unchanged(pre, post)
                } else {
                    r matches Err(e) && e is Template && post.phase_spec() is Failed
                },
            }
        }
    } else if kind is Macros {
        if !has_key(pre.cfg().macros@, name) {
            r matches Err(e) && e matches ResolveError::UnresolvedTask { task: t } && t@ == task
                && post.phase_spec() is Failed
        } else {
            let mac = lookup(pre.cfg().macros@, name);
            if mac.steps@.len() == 0 || pre.budgetv() == 0 {
                r matches Err(e) && e is ConfigValidation && post.phase_spec() is Failed
            } else {
                &&& r matches Ok(t) && t is Working
                &&& post.stackv().len() == pre.stackv().len() + 1
                &&& (forall|i: int|
                    0 <= i < pre.stackv().len() ==> post.stackv()[i] == pre.stackv()[i])
                &&& post.stackv().last().name@ == name
                &&& post.stackv().last().idx == 0
                &&& post.stackv().last().macro_input@ == pre.inputv()
                &&& post.stackv().last().args@ == pre.argsv()
                &&& post.stackv().last().streaming == (mode is Streaming)
                &&& post.phase_spec() is StepArgs
                &&& post.budgetv() == pre.budgetv() - 1
                &&& post.inputv() == pre.inputv()
                &&& post.transformv() == pre.transformv()
                &&& post.argsv() == pre.argsv()
                &&& post.callsv() == pre.callsv()
            }
        }
    } else if kind is Providers {
        if !(mode is Buffered) {
            r matches Err(e) && e matches ResolveError::UnresolvedStreamableTask { task: t } && t@
                == task && post.phase_spec() is Failed
        } else if !has_key(pre.cfg().providers@, name) {
            r matches Err(e) && e matches ResolveError::UnresolvedTask { task: t } && t@ == task
                && post.phase_spec() is Failed
        } else {
            &&& r matches Ok(t)
            &&& t matches Tick::Action(a)
            &&& a matches StepAction::NeedProvider { name: p } && p@ == lookup(
                pre.cfg().providers@,
                name,
            ).provider@
            &&& post.phase_spec() matches Phase::AwaitProviderDef { name: n } && n@ == name
            &&& core_unchanged(pre, post)
        }
    } else {
        if mode is Buffered {
            r matches Err(e) && e matches ResolveError::UnsupportedBufferedTask { task: t } && t@
                == task && post.phase_spec() is Failed
        } else {
            r matches Err(e) && e matches ResolveError::UnresolvedStreamableTask { task: t } && t@
                == task && post.phase_spec() is Failed
        }
    }
}

/// The parts of the machine a leaf dispatch leaves alone.
pub open spec fn core_unchanged(pre: Resolver, post: Resolver) -> bool {
    &&& post.inputv() == pre.inputv()
    &&& post.transformv() == pre.transformv()
    &&& post.argsv() == pre.argsv()
    &&& post.stackv() == pre.stackv()
    &&& post.callsv() == pre.callsv()
    &&& post.budgetv() == pre.budgetv()
}

/// What processing the top frame's current step does to the machine: the
/// step's argument templates are rendered against the macro context, the
/// working input follows the `input` argument when one is given, the
/// step is logged exactly as `macro_schedule` orders it, and its task is
/// left waiting for dispatch — buffered for every step but the last, in
/// the frame's own delivery for the last.
pub open spec fn tick_step_post(pre: Resolver, post: Resolver, r: Result<Tick, ResolveError>) -> bool {
    let f = pre.stackv().last();
    let mac = lookup(pre.cfg().macros@, f.name@);
    let step = mac.steps@[f.idx as int];
    let is_last = f.idx == mac.steps@.len() - 1;
    let argctx = ctx_json_with_macro_of(
        CtxView {
            input: pre.inputv(),
            datetime: pre.datetimev(),
            props: pre.cfg().props@,
            transform: pre.transformv(),
            args: f.args@,
        },
        f.macro_input@,
    );
    match render_pairs(step.args@, argctx) {
        None => r matches Err(e) && e is Template && post.phase_spec() is Failed,
        Some(rend) => {
            let newargs = set_all(Seq::<(Seq<char>, Seq<char>)>::empty(), rend);
            let newinput = match assoc_get(newargs, "input"@) {
                Some(v) => v,
                None => pre.inputv(),
            };
            &&& r matches Ok(t) && t is Working
            &&& post.argsv() == newargs
            &&& post.inputv() == newinput
            &&& post.transformv() == pre.transformv()
            &&& post.budgetv() == pre.budgetv()
            &&& post.callsv() == pre.callsv().push(macro_schedule(mac.steps@)[f.idx as int])
            &&& if is_last {
                &&& post.stackv() == pre.stackv().drop_last()
                &&& post.phase_spec() matches Phase::Dispatch { task, mode } && task@ == step.task@
                    && mode == (if f.streaming {
                    Mode::Streaming
                } else {
                    Mode::Drained
                })
            } else {
                &&& post.stackv().len() == pre.stackv().len()
                &&& (forall|i: int|
                    0 <= i < pre.stackv().len() - 1 ==> post.stackv()[i] == pre.stackv()[i])
                &&& post.stackv().last().name == f.name
                &&& post.stackv().last().idx == f.idx + 1
                &&& post.stackv().last().macro_input == f.macro_input
                &&& post.stackv().last().args == f.args
                &&& post.stackv().last().streaming == f.streaming
                &&& post.phase_spec() matches Phase::Dispatch { task, mode } && task@ == step.task@
                    && mode is Buffered
            }
        },
    }
}

} // verus!
