//! The process-lifetime configuration: endpoints, responses, macros and
//! provider bindings, plus task-id dispatch over them.
//!
//! A task id is a two-segment dotted string `"kind.name"`; the kind picks
//! the section and the name picks the entry. Every section keeps its
//! entries as an ordered list of `(name, entry)` pairs with unique names.

use vstd::prelude::*;

use crate::error::ResolveError;
use crate::jsontext::{
    append_json_string, append_raw, append_string_array_json, append_strmap_json, dec_digits,
    join_sep, joined_lines, json_string, push_char, string_array_json, strmap_json,
    usize_to_string,
};
use crate::render::{render_outcome, render_template_lines};
use crate::text::StrMap;

verus! {

/// One HTTP route: the task it runs and how the endpoint presents itself.
pub struct ConfigEndpoint {
    pub task: String,
    pub categorization: String,
    pub designation: String,
    pub id: String,
    pub icon: char,
}

/// One language-model step: a prompt template plus optional footer and
/// transform templates evaluated after the model answers.
pub struct ConfigResponse {
    pub args: Option<Vec<String>>,
    pub prompt: Vec<String>,
    pub transform: Option<StrMap>,
    pub footer: Option<String>,
}

/// One step of a macro: the task to run and its argument templates.
pub struct MacroStep {
    pub task: String,
    pub args: StrMap,
}

/// An ordered chain of task invocations sharing one resolution context.
pub struct ConfigMacro {
    pub steps: Vec<MacroStep>,
}

/// One declarative external-API call: which provider definition to use,
/// the property templates to render, and the transform templates evaluated
/// against the provider's JSON answer.
pub struct ConfigProvider {
    pub args: Option<Vec<String>>,
    pub provider: String,
    pub props: StrMap,
    pub transform: Option<StrMap>,
}

/// The immutable process-lifetime configuration.
pub struct BotConfig {
    pub fallback_endpoint: String,
    pub props: StrMap,
    pub endpoints: Vec<(String, ConfigEndpoint)>,
    pub responses: Vec<(String, ConfigResponse)>,
    pub macros: Vec<(String, ConfigMacro)>,
    pub providers: Vec<(String, ConfigProvider)>,
    pub help_prompt: Vec<String>,
    pub categorize_prompt: Vec<String>,
    pub message_history: usize,
}

/// No name occurs twice in a section.
pub open spec fn keys_unique<T>(s: Seq<(String, T)>) -> bool {
    forall|i: int, j: int| 0 <= i < j < s.len() ==> s[i].0@ != s[j].0@
}

impl BotConfig {
    /// Every section's names are unique.
    pub open spec fn wf(&self) -> bool {
        keys_unique(self.endpoints@) && keys_unique(self.responses@) && keys_unique(self.macros@)
            && keys_unique(self.providers@)
    }
}

/// Whether `name` is bound in the section.
pub open spec fn has_key<T>(s: Seq<(String, T)>, name: Seq<char>) -> bool {
    exists|i: int| 0 <= i < s.len() && s[i].0@ == name
}

/// The entry bound to `name`; meaningful only when `has_key` holds.
pub open spec fn lookup<T>(s: Seq<(String, T)>, name: Seq<char>) -> T {
    let i = choose|i: int| 0 <= i < s.len() && s[i].0@ == name;
    s[i].1
}

/// With unique names, any binding of `name` is the looked-up one.
pub proof fn lemma_lookup<T>(s: Seq<(String, T)>, name: Seq<char>, i: int)
    requires
        keys_unique(s),
        0 <= i < s.len(),
        s[i].0@ == name,
    ensures
        lookup(s, name) == s[i].1,
{
    let j = choose|j: int| 0 <= j < s.len() && s[j].0@ == name;
    assert(0 <= j < s.len() && s[j].0@ == name);
    if i != j {
        assert(false);
    }
}

/// Finds the entry bound to `name` in a section.
pub fn assoc_find<'a, T>(list: &'a Vec<(String, T)>, name: &str) -> (r: Option<&'a T>)
    ensures
        r is Some <==> has_key(list@, name@),
        r matches Some(v) ==> exists|i: int|
            0 <= i < list@.len() && list@[i].0@ == name@ && list@[i].1 == *v,
{
    let n = list.len();
    let mut i: usize = 0;
    while i < n
        invariant
            n == list@.len(),
            i <= n,
            forall|j: int| 0 <= j < i ==> list@[j].0@ != name@,
        decreases n - i,
    {
        if crate::text::str_eq(list[i].0.as_str(), name) {
            return Some(&list[i].1);
        }
        i = i + 1;
    }
    None
}

/// The three task kinds a task id can dispatch to, or none of them.
#[derive(Debug, Clone, Copy, PartialEq, Eq, Structural)]
pub enum TaskKind {
    Responses,
    Macros,
    Providers,
    Other,
}

/// Whether `s` begins with `p`.
pub open spec fn prefix_is(s: Seq<char>, p: Seq<char>) -> bool {
    s.len() >= p.len() && s.subrange(0, p.len() as int) == p
}

/// The kind segment of a task id, decided by its prefix.
pub open spec fn task_kind_spec(id: Seq<char>) -> TaskKind {
    if prefix_is(id, "responses."@) {
        TaskKind::Responses
    } else if prefix_is(id, "macros."@) {
        TaskKind::Macros
    } else if prefix_is(id, "providers."@) {
        TaskKind::Providers
    } else {
        TaskKind::Other
    }
}

/// Index of the first occurrence of `c` in `s`, or `s.len()` when absent.
pub open spec fn idx_of(s: Seq<char>, c: char) -> nat
    decreases s.len(),
{
    if s.len() == 0 {
        0
    } else if s[0] == c {
        0
    } else {
        (1 + idx_of(s.skip(1), c)) as nat
    }
}

/// The name segment of a task id: what stands between the first dot and
/// the next dot (or the end).
pub open spec fn task_name_spec(id: Seq<char>) -> Seq<char> {
    if idx_of(id, '.') == id.len() {
        Seq::<char>::empty()
    } else {
        task_name_from(id.skip(idx_of(id, '.') as int + 1))
    }
}

/// The leading run of `rest` up to its first dot.
pub open spec fn task_name_from(rest: Seq<char>) -> Seq<char> {
    rest.subrange(0, idx_of(rest, '.') as int)
}

proof fn lemma_idx_of_index(s: Seq<char>, c: char, i: int)
    requires
        0 <= i <= s.len(),
        forall|j: int| 0 <= j < i ==> s[j] != c,
        i == s.len() || s[i] == c,
    ensures
        idx_of(s, c) == i,
    decreases s.len(),
{
    if i == 0 {
    } else {
        assert(s[0] != c);
        assert(forall|j: int| 0 <= j < i - 1 ==> s.skip(1)[j] == s[j + 1]);
        assert(i - 1 == s.skip(1).len() || s.skip(1)[i - 1] == s[i]);
        lemma_idx_of_index(s.skip(1), c, i - 1);
    }
}

/// Index of the first `c` in `s`, or the length when `c` is absent.
pub fn find_char(s: &str, c: char) -> (r: usize)
    ensures
        r == idx_of(s@, c),
        r <= s@.len(),
{
    let n = s.unicode_len();
    let mut i: usize = 0;
    while i < n && s.get_char(i) != c
        invariant
            n == s@.len(),
            i <= n,
            forall|j: int| 0 <= j < i ==> s@[j] != c,
        decreases n - i,
    {
        i = i + 1;
    }
    proof {
        lemma_idx_of_index(s@, c, i as int);
    }
    i
}

/// Splits a task id into its kind and its name segment.
pub fn parse_task(id: &str) -> (r: (TaskKind, String))
    ensures
        r.0 == task_kind_spec(id@),
        r.1@ == task_name_spec(id@),
{
    let kind = if crate::text::str_starts_with(id, "responses.") {
        TaskKind::Responses
    } else if crate::text::str_starts_with(id, "macros.") {
        TaskKind::Macros
    } else if crate::text::str_starts_with(id, "providers.") {
        TaskKind::Providers
    } else {
        TaskKind::Other
    };
    let n = id.unicode_len();
    let dot = find_char(id, '.');
    if dot == n {
        return (kind, String::new());
    }
    let rest = id.substring_char(dot + 1, n);
    let stop = find_char(rest, '.');
    let name = rest.substring_char(0, stop);
    proof {
        assert(rest@ =~= id@.skip(idx_of(id@, '.') as int + 1));
        lemma_idx_of_le_len(rest@, '.');
    }
    (kind, String::from_str(name))
}

proof fn lemma_idx_of_le_len(s: Seq<char>, c: char)
    ensures
        idx_of(s, c) <= s.len(),
    decreases s.len(),
{
    if s.len() > 0 && s[0] != c {
        lemma_idx_of_le_len(s.skip(1), c);
    }
}

/// Whether a task id may back an HTTP endpoint: its kind must be
/// `responses` or `macros` and the named entry must exist.
pub open spec fn endpoint_task_valid(config: BotConfig, id: Seq<char>) -> bool {
    ||| (task_kind_spec(id) is Responses && has_key(config.responses@, task_name_spec(id)))
    ||| (task_kind_spec(id) is Macros && has_key(config.macros@, task_name_spec(id)))
}

/// Checks every endpoint's task id at startup: a missing or wrongly-kinded
/// reference is fatal before any route exists.
pub fn validate_endpoints(config: &BotConfig) -> (r: Result<(), ResolveError>)
    ensures
        r is Ok <==> (forall|i: int|
            0 <= i < config.endpoints@.len() ==> endpoint_task_valid(
                *config,
                config.endpoints@[i].1.task@,
            )),
        r matches Err(e) ==> e is ConfigValidation,
{
    let n = config.endpoints.len();
    let mut i: usize = 0;
    while i < n
        invariant
            n == config.endpoints@.len(),
            i <= n,
            forall|j: int|
                0 <= j < i ==> endpoint_task_valid(*config, config.endpoints@[j].1.task@),
        decreases n - i,
    {
        let task = &config.endpoints[i].1.task;
        let (kind, name) = parse_task(task.as_str());
        let ok = match kind {
            TaskKind::Responses => assoc_find(&config.responses, name.as_str()).is_some(),
            TaskKind::Macros => assoc_find(&config.macros, name.as_str()).is_some(),
            TaskKind::Providers => false,
            TaskKind::Other => false,
        };
        if !ok {
            let mut detail = String::new();
            crate::jsontext::append_raw(&mut detail, "invalid task id `");
            crate::jsontext::append_raw(&mut detail, task.as_str());
            crate::jsontext::append_raw(&mut detail, "` for route `");
            crate::jsontext::append_raw(&mut detail, config.endpoints[i].0.as_str());
            crate::jsontext::append_raw(&mut detail, "`");
            return Err(ResolveError::ConfigValidation { detail });
        }
        i = i + 1;
    }
    Ok(())
}

/// Picks the category for a model-classified request: the model's answer
/// when some endpoint declares it as its id, the fallback otherwise.
pub fn select_category(config: &BotConfig, category: &str) -> (r: String)
    ensures
        (exists|i: int| 0 <= i < config.endpoints@.len() && config.endpoints@[i].1.id@ == category@)
            ==> r@ == category@,
        !(exists|i: int|
            0 <= i < config.endpoints@.len() && config.endpoints@[i].1.id@ == category@) ==> r@
            == config.fallback_endpoint@,
{
    let n = config.endpoints.len();
    let mut i: usize = 0;
    while i < n
        invariant
            n == config.endpoints@.len(),
            i <= n,
            forall|j: int| 0 <= j < i ==> config.endpoints@[j].1.id@ != category@,
        decreases n - i,
    {
        if crate::text::str_eq(config.endpoints[i].1.id.as_str(), category) {
            return String::from_str(category);
        }
        i = i + 1;
    }
    crate::text::clone_string(&config.fallback_endpoint)
}

/// The configuration as the help and categorize templates see it: the
/// same data, with the endpoints as a list.
pub struct BotConfigHeadless {
    pub fallback_endpoint: String,
    pub props: StrMap,
    pub endpoints: Vec<ConfigEndpoint>,
    pub responses: Vec<(String, ConfigResponse)>,
    pub macros: Vec<(String, ConfigMacro)>,
    pub providers: Vec<(String, ConfigProvider)>,
    pub help_prompt: Vec<String>,
    pub categorize_prompt: Vec<String>,
    pub message_history: usize,
}

/// Both absent, or the same characters.
pub open spec fn opt_str_eq(a: Option<String>, b: Option<String>) -> bool {
    (a is Some <==> b is Some) && (a is Some ==> a->0@ == b->0@)
}

/// The same lines, character for character.
pub open spec fn vec_str_eq(a: Vec<String>, b: Vec<String>) -> bool {
    a@.map_values(|s: String| s@) == b@.map_values(|s: String| s@)
}

/// Both absent, or the same lines.
pub open spec fn opt_vec_str_eq(a: Option<Vec<String>>, b: Option<Vec<String>>) -> bool {
    (a is Some <==> b is Some) && (a is Some ==> vec_str_eq(a->0, b->0))
}

/// Both absent, or the same pairs.
pub open spec fn opt_strmap_eq(a: Option<StrMap>, b: Option<StrMap>) -> bool {
    (a is Some <==> b is Some) && (a is Some ==> a->0@ == b->0@)
}

/// The same endpoint, field by field.
pub open spec fn endpoint_eq(a: ConfigEndpoint, b: ConfigEndpoint) -> bool {
    a.task@ == b.task@ && a.categorization@ == b.categorization@ && a.designation@
        == b.designation@ && a.id@ == b.id@ && a.icon == b.icon
}

/// The same response entry, field by field.
pub open spec fn response_eq(a: ConfigResponse, b: ConfigResponse) -> bool {
    opt_vec_str_eq(a.args, b.args) && vec_str_eq(a.prompt, b.prompt) && opt_strmap_eq(
        a.transform,
        b.transform,
    ) && opt_str_eq(a.footer, b.footer)
}

/// The same macro step, field by field.
pub open spec fn step_eq(a: MacroStep, b: MacroStep) -> bool {
    a.task@ == b.task@ && a.args@ == b.args@
}

/// The same macro, step by step.
pub open spec fn macro_eq(a: ConfigMacro, b: ConfigMacro) -> bool {
    a.steps@.len() == b.steps@.len() && (forall|i: int|
        0 <= i < a.steps@.len() ==> step_eq(#[trigger] a.steps@[i], b.steps@[i]))
}

/// The same provider binding, field by field.
pub open spec fn provider_binding_eq(a: ConfigProvider, b: ConfigProvider) -> bool {
    opt_vec_str_eq(a.args, b.args) && a.provider@ == b.provider@ && a.props@ == b.props@
        && opt_strmap_eq(a.transform, b.transform)
}

/// The headless shape carries the configuration unchanged: the same data
/// in every section, with the endpoints as a list of entries in declared
/// order, their route paths dropped.
pub open spec fn headless_matches(h: BotConfigHeadless, c: BotConfig) -> bool {
    &&& h.fallback_endpoint@ == c.fallback_endpoint@
    &&& h.props@ == c.props@
    &&& h.endpoints@.len() == c.endpoints@.len()
    &&& (forall|i: int|
        0 <= i < c.endpoints@.len() ==> endpoint_eq(#[trigger] h.endpoints@[i], c.endpoints@[i].1))
    &&& h.responses@.len() == c.responses@.len()
    &&& (forall|i: int|
        0 <= i < c.responses@.len() ==> (#[trigger] h.responses@[i]).0@ == c.responses@[i].0@
            && response_eq(h.responses@[i].1, c.responses@[i].1))
    &&& h.macros@.len() == c.macros@.len()
    &&& (forall|i: int|
        0 <= i < c.macros@.len() ==> (#[trigger] h.macros@[i]).0@ == c.macros@[i].0@ && macro_eq(
            h.macros@[i].1,
            c.macros@[i].1,
        ))
    &&& h.providers@.len() == c.providers@.len()
    &&& (forall|i: int|
        0 <= i < c.providers@.len() ==> (#[trigger] h.providers@[i]).0@ == c.providers@[i].0@
            && provider_binding_eq(h.providers@[i].1, c.providers@[i].1))
    &&& vec_str_eq(h.help_prompt, c.help_prompt)
    &&& vec_str_eq(h.categorize_prompt, c.categorize_prompt)
    &&& h.message_history == c.message_history
}

/// A copy of the lines.
fn clone_vec_string(v: &Vec<String>) -> (r: Vec<String>)
    ensures
        vec_str_eq(r, *v),
{
    let mut out: Vec<String> = Vec::new();
    let n = v.len();
    let mut i: usize = 0;
    while i < n
        invariant
            n == v@.len(),
            i <= n,
            out@.map_values(|s: String| s@) =~= v@.subrange(0, i as int).map_values(
                |s: String| s@,
            ),
        decreases n - i,
    {
        let ghost prev = out@;
        out.push(v[i].clone());
        proof {
            assert(out@.map_values(|s: String| s@) =~= prev.map_values(|s: String| s@).push(
                v@[i as int]@,
            ));
            assert(v@.subrange(0, i as int + 1) =~= v@.subrange(0, i as int).push(v@[i as int]));
            assert(v@.subrange(0, i as int + 1).map_values(|s: String| s@) =~= v@.subrange(
                0,
                i as int,
            ).map_values(|s: String| s@).push(v@[i as int]@));
        }
        i = i + 1;
    }
    proof {
        assert(v@.subrange(0, n as int) =~= v@);
    }
    out
}

/// A copy of the optional string.
fn clone_opt_string(v: &Option<String>) -> (r: Option<String>)
    ensures
        opt_str_eq(r, *v),
{
    match v {
        Some(s) => Some(s.clone()),
        None => None,
    }
}

/// A copy of the optional lines.
fn clone_opt_vec_string(v: &Option<Vec<String>>) -> (r: Option<Vec<String>>)
    ensures
        opt_vec_str_eq(r, *v),
{
    match v {
        Some(s) => Some(clone_vec_string(s)),
        None => None,
    }
}

/// A copy of the optional map.
fn clone_opt_strmap(v: &Option<StrMap>) -> (r: Option<StrMap>)
    ensures
        opt_strmap_eq(r, *v),
{
    match v {
        Some(m) => Some(m.duplicate()),
        None => None,
    }
}

impl ConfigEndpoint {
    /// A copy of the endpoint.
    pub fn duplicate(&self) -> (r: ConfigEndpoint)
        ensures
            endpoint_eq(r, *self),
    {
        ConfigEndpoint {
            task: self.task.clone(),
            categorization: self.categorization.clone(),
            designation: self.designation.clone(),
            id: self.id.clone(),
            icon: self.icon,
        }
    }
}

impl ConfigResponse {
    /// A copy of the response entry.
    pub fn duplicate(&self) -> (r: ConfigResponse)
        ensures
            response_eq(r, *self),
    {
        ConfigResponse {
            args: clone_opt_vec_string(&self.args),
            prompt: clone_vec_string(&self.prompt),
            transform: clone_opt_strmap(&self.transform),
            footer: clone_opt_string(&self.footer),
        }
    }
}

impl MacroStep {
    /// A copy of the step.
    pub fn duplicate(&self) -> (r: MacroStep)
        ensures
            step_eq(r, *self),
    {
        MacroStep { task: self.task.clone(), args: self.args.duplicate() }
    }
}

impl ConfigMacro {
    /// A copy of the macro.
    pub fn duplicate(&self) -> (r: ConfigMacro)
        ensures
            macro_eq(r, *self),
    {
        let mut steps: Vec<MacroStep> = Vec::new();
        let n = self.steps.len();
        let mut i: usize = 0;
        while i < n
            invariant
                n == self.steps@.len(),
                i <= n,
                steps@.len() == i,
                forall|j: int| 0 <= j < i ==> step_eq(#[trigger] steps@[j], self.steps@[j]),
            decreases n - i,
        {
            steps.push(self.steps[i].duplicate());
            i = i + 1;
        }
        ConfigMacro { steps }
    }
}

impl ConfigProvider {
    /// A copy of the binding.
    pub fn duplicate(&self) -> (r: ConfigProvider)
        ensures
            provider_binding_eq(r, *self),
    {
        ConfigProvider {
            args: clone_opt_vec_string(&self.args),
            provider: self.provider.clone(),
            props: self.props.duplicate(),
            transform: clone_opt_strmap(&self.transform),
        }
    }
}

impl BotConfig {
    /// The headless shape of the configuration: the same data with the
    /// endpoints as a plain list, as the help and categorize templates
    /// consume it.
    pub fn headless(&self) -> (r: BotConfigHeadless)
        ensures
            headless_matches(r, *self),
    {
        let mut endpoints: Vec<ConfigEndpoint> = Vec::new();
        let n = self.endpoints.len();
        let mut i: usize = 0;
        while i < n
            invariant
                n == self.endpoints@.len(),
                i <= n,
                endpoints@.len() == i,
                forall|j: int|
                    0 <= j < i ==> endpoint_eq(#[trigger] endpoints@[j], self.endpoints@[j].1),
            decreases n - i,
        {
            endpoints.push(self.endpoints[i].1.duplicate());
            i = i + 1;
        }
        let mut responses: Vec<(String, ConfigResponse)> = Vec::new();
        let rn = self.responses.len();
        let mut i: usize = 0;
        while i < rn
            invariant
                rn == self.responses@.len(),
                i <= rn,
                responses@.len() == i,
                forall|j: int|
                    0 <= j < i ==> (#[trigger] responses@[j]).0@ == self.responses@[j].0@
                        && response_eq(responses@[j].1, self.responses@[j].1),
            decreases rn - i,
        {
            responses.push((self.responses[i].0.clone(), self.responses[i].1.duplicate()));
            i = i + 1;
        }
        let mut macros: Vec<(String, ConfigMacro)> = Vec::new();
        let mn = self.macros.len();
        let mut i: usize = 0;
        while i < mn
            invariant
                mn == self.macros@.len(),
                i <= mn,
                macros@.len() == i,
                forall|j: int|
                    0 <= j < i ==> (#[trigger] macros@[j]).0@ == self.macros@[j].0@ && macro_eq(
                        macros@[j].1,
                        self.macros@[j].1,
                    ),
            decreases mn - i,
        {
            macros.push((self.macros[i].0.clone(), self.macros[i].1.duplicate()));
            i = i + 1;
        }
        let mut providers: Vec<(String, ConfigProvider)> = Vec::new();
        let pn = self.providers.len();
        let mut i: usize = 0;
        while i < pn
            invariant
                pn == self.providers@.len(),
                i <= pn,
                providers@.len() == i,
                forall|j: int|
                    0 <= j < i ==> (#[trigger] providers@[j]).0@ == self.providers@[j].0@
                        && provider_binding_eq(providers@[j].1, self.providers@[j].1),
            decreases pn - i,
        {
            providers.push((self.providers[i].0.clone(), self.providers[i].1.duplicate()));
            i = i + 1;
        }
        BotConfigHeadless {
            fallback_endpoint: self.fallback_endpoint.clone(),
            props: self.props.duplicate(),
            endpoints,
            responses,
            macros,
            providers,
            help_prompt: clone_vec_string(&self.help_prompt),
            categorize_prompt: clone_vec_string(&self.categorize_prompt),
            message_history: self.message_history,
        }
    }
}

/// A JSON `null` or the string literal for the value.
pub open spec fn opt_str_json(o: Option<String>) -> Seq<char> {
    match o {
        Some(s) => json_string(s@),
        None => "null"@,
    }
}

/// A JSON `null` or the object for the map.
pub open spec fn opt_strmap_json(o: Option<StrMap>) -> Seq<char> {
    match o {
        Some(m) => strmap_json(m@),
        None => "null"@,
    }
}

/// A JSON `null` or the array of string literals.
pub open spec fn opt_str_array_json(o: Option<Vec<String>>) -> Seq<char> {
    match o {
        Some(v) => string_array_json(v@.map_values(|s: String| s@)),
        None => "null"@,
    }
}

/// One endpoint as JSON.
pub open spec fn endpoint_json(e: ConfigEndpoint) -> Seq<char> {
    "{\"task\":"@ + json_string(e.task@) + ",\"categorization\":"@ + json_string(
        e.categorization@,
    ) + ",\"designation\":"@ + json_string(e.designation@) + ",\"id\":"@ + json_string(e.id@)
        + ",\"icon\":"@ + json_string(seq![e.icon]) + seq!['}']
}

/// One response entry as JSON.
pub open spec fn response_json(r: ConfigResponse) -> Seq<char> {
    "{\"args\":"@ + opt_str_array_json(r.args) + ",\"prompt\":"@ + string_array_json(
        r.prompt@.map_values(|s: String| s@),
    ) + ",\"transform\":"@ + opt_strmap_json(r.transform) + ",\"footer\":"@ + opt_str_json(
        r.footer,
    ) + seq!['}']
}

/// One macro step as JSON.
pub open spec fn step_json(s: MacroStep) -> Seq<char> {
    "{\"task\":"@ + json_string(s.task@) + ",\"args\":"@ + strmap_json(s.args@) + seq!['}']
}

/// One macro as JSON.
pub open spec fn macro_json(m: ConfigMacro) -> Seq<char> {
    "{\"steps\":["@ + join_sep(m.steps@.map_values(|s: MacroStep| step_json(s)), seq![','])
        + "]}"@
}

/// One provider binding as JSON.
pub open spec fn provider_cfg_json(p: ConfigProvider) -> Seq<char> {
    "{\"args\":"@ + opt_str_array_json(p.args) + ",\"provider\":"@ + json_string(p.provider@)
        + ",\"props\":"@ + strmap_json(p.props@) + ",\"transform\":"@ + opt_strmap_json(
        p.transform,
    ) + seq!['}']
}

/// The member list of a named section of JSON objects.
pub open spec fn named_members<T>(
    s: Seq<(String, T)>,
    value_json: spec_fn(T) -> Seq<char>,
) -> Seq<Seq<char>> {
    s.map_values(|p: (String, T)| json_string(p.0@) + seq![':'] + value_json(p.1))
}

/// The configuration as the help and categorize templates see it, as one
/// JSON text: every field of the headless shape, with the endpoints as an
/// array in declared order and each named section as an object.
pub open spec fn headless_config_json(c: BotConfig) -> Seq<char> {
    "{\"fallbackEndpoint\":"@ + json_string(c.fallback_endpoint@) + ",\"props\":"@
        + strmap_json(c.props@) + ",\"endpoints\":["@ + join_sep(
        c.endpoints@.map_values(|p: (String, ConfigEndpoint)| endpoint_json(p.1)),
        seq![','],
    ) + "],\"responses\":{"@ + join_sep(
        named_members(c.responses@, |r: ConfigResponse| response_json(r)),
        seq![','],
    ) + "},\"macros\":{"@ + join_sep(
        named_members(c.macros@, |m: ConfigMacro| macro_json(m)),
        seq![','],
    ) + "},\"providers\":{"@ + join_sep(
        named_members(c.providers@, |p: ConfigProvider| provider_cfg_json(p)),
        seq![','],
    ) + "},\"helpPrompt\":"@ + string_array_json(c.help_prompt@.map_values(|s: String| s@))
        + ",\"categorizePrompt\":"@ + string_array_json(
        c.categorize_prompt@.map_values(|s: String| s@),
    ) + ",\"messageHistory\":"@ + dec_digits(c.message_history as nat) + seq!['}']
}

/// Appends a `null` or the string literal.
fn append_opt_str_json(out: &mut String, o: &Option<String>)
    ensures
        final(out)@ == old(out)@ + opt_str_json(*o),
{
    match o {
        Some(s) => append_json_string(out, s.as_str()),
        None => append_raw(out, "null"),
    }
}

/// Appends a `null` or the map object.
fn append_opt_strmap_json(out: &mut String, o: &Option<StrMap>)
    ensures
        final(out)@ == old(out)@ + opt_strmap_json(*o),
{
    match o {
        Some(m) => append_strmap_json(out, m),
        None => append_raw(out, "null"),
    }
}

/// Appends a `null` or the string array.
fn append_opt_str_array_json(out: &mut String, o: &Option<Vec<String>>)
    ensures
        final(out)@ == old(out)@ + opt_str_array_json(*o),
{
    match o {
        Some(v) => append_string_array_json(out, v),
        None => append_raw(out, "null"),
    }
}

/// Appends one endpoint.
fn append_endpoint_json(out: &mut String, e: &ConfigEndpoint)
    ensures
        final(out)@ == old(out)@ + endpoint_json(*e),
{
    append_raw(out, "{\"task\":");
    append_json_string(out, e.task.as_str());
    append_raw(out, ",\"categorization\":");
    append_json_string(out, e.categorization.as_str());
    append_raw(out, ",\"designation\":");
    append_json_string(out, e.designation.as_str());
    append_raw(out, ",\"id\":");
    append_json_string(out, e.id.as_str());
    append_raw(out, ",\"icon\":");
    let mut icon = String::new();
    push_char(&mut icon, e.icon);
    append_json_string(out, icon.as_str());
    push_char(out, '}');
    proof {
        assert(icon@ =~= seq![e.icon]);
        assert(out@ =~= old(out)@ + endpoint_json(*e));
    }
}

/// Appends one response entry.
fn append_response_json(out: &mut String, r: &ConfigResponse)
    ensures
        final(out)@ == old(out)@ + response_json(*r),
{
    append_raw(out, "{\"args\":");
    append_opt_str_array_json(out, &r.args);
    append_raw(out, ",\"prompt\":");
    append_string_array_json(out, &r.prompt);
    append_raw(out, ",\"transform\":");
    append_opt_strmap_json(out, &r.transform);
    append_raw(out, ",\"footer\":");
    append_opt_str_json(out, &r.footer);
    push_char(out, '}');
    proof {
        assert(out@ =~= old(out)@ + response_json(*r));
    }
}

/// Appends one macro step.
fn append_step_json(out: &mut String, s: &MacroStep)
    ensures
        final(out)@ == old(out)@ + step_json(*s),
{
    append_raw(out, "{\"task\":");
    append_json_string(out, s.task.as_str());
    append_raw(out, ",\"args\":");
    append_strmap_json(out, &s.args);
    push_char(out, '}');
    proof {
        assert(out@ =~= old(out)@ + step_json(*s));
    }
}

/// Appends one macro.
fn append_macro_json(out: &mut String, m: &ConfigMacro)
    ensures
        final(out)@ == old(out)@ + macro_json(*m),
{
    let ghost membs = m.steps@.map_values(|s: MacroStep| step_json(s));
    append_raw(out, "{\"steps\":[");
    let n = m.steps.len();
    let mut i: usize = 0;
    proof {
        assert(membs.subrange(0, 0) =~= Seq::<Seq<char>>::empty());
        assert(out@ + join_sep(Seq::<Seq<char>>::empty(), seq![',']) =~= out@);
    }
    while i < n
        invariant
            n == m.steps@.len(),
            membs == m.steps@.map_values(|s: MacroStep| step_json(s)),
            membs.len() == n,
            i <= n,
            out@ == old(out)@ + "{\"steps\":["@ + join_sep(
                membs.subrange(0, i as int),
                seq![','],
            ),
        decreases n - i,
    {
        let ghost before = out@;
        if i > 0 {
            push_char(out, ',');
        }
        append_step_json(out, &m.steps[i]);
        proof {
            crate::jsontext::lemma_join_sep_snoc(
                membs.subrange(0, i as int),
                seq![','],
                membs[i as int],
            );
            assert(membs.subrange(0, i as int).push(membs[i as int]) =~= membs.subrange(
                0,
                i as int + 1,
            ));
            if i == 0 {
                assert(out@ =~= before + membs[i as int]);
            } else {
                assert(out@ =~= before + seq![','] + membs[i as int]);
                assert(before + seq![','] + membs[i as int] =~= old(out)@ + "{\"steps\":["@
                    + (join_sep(membs.subrange(0, i as int), seq![',']) + seq![',']
                    + membs[i as int]));
            }
        }
        i = i + 1;
    }
    append_raw(out, "]}");
    proof {
        assert(membs.subrange(0, n as int) =~= membs);
        assert(out@ =~= old(out)@ + macro_json(*m));
    }
}

/// Appends one provider binding.
fn append_provider_cfg_json(out: &mut String, p: &ConfigProvider)
    ensures
        final(out)@ == old(out)@ + provider_cfg_json(*p),
{
    append_raw(out, "{\"args\":");
    append_opt_str_array_json(out, &p.args);
    append_raw(out, ",\"provider\":");
    append_json_string(out, p.provider.as_str());
    append_raw(out, ",\"props\":");
    append_strmap_json(out, &p.props);
    append_raw(out, ",\"transform\":");
    append_opt_strmap_json(out, &p.transform);
    push_char(out, '}');
    proof {
        assert(out@ =~= old(out)@ + provider_cfg_json(*p));
    }
}

/// The configuration as JSON text for the help and categorize templates.
pub fn config_ctx_json(c: &BotConfig) -> (r: String)
    ensures
        r@ == headless_config_json(*c),
{
    let mut out = String::new();
    append_raw(&mut out, "{\"fallbackEndpoint\":");
    append_json_string(&mut out, c.fallback_endpoint.as_str());
    append_raw(&mut out, ",\"props\":");
    append_strmap_json(&mut out, &c.props);
    append_raw(&mut out, ",\"endpoints\":[");
    let ghost emembs = c.endpoints@.map_values(
        |p: (String, ConfigEndpoint)| endpoint_json(p.1),
    );
    let ghost prefix0 = out@;
    let n = c.endpoints.len();
    let mut i: usize = 0;
    proof {
        assert(emembs.subrange(0, 0) =~= Seq::<Seq<char>>::empty());
        assert(out@ + join_sep(Seq::<Seq<char>>::empty(), seq![',']) =~= out@);
    }
    while i < n
        invariant
            n == c.endpoints@.len(),
            emembs == c.endpoints@.map_values(|p: (String, ConfigEndpoint)| endpoint_json(p.1)),
            emembs.len() == n,
            i <= n,
            out@ == prefix0 + join_sep(emembs.subrange(0, i as int), seq![',']),
        decreases n - i,
    {
        let ghost before = out@;
        if i > 0 {
            push_char(&mut out, ',');
        }
        append_endpoint_json(&mut out, &c.endpoints[i].1);
        proof {
            crate::jsontext::lemma_join_sep_snoc(
                emembs.subrange(0, i as int),
                seq![','],
                emembs[i as int],
            );
            assert(emembs.subrange(0, i as int).push(emembs[i as int]) =~= emembs.subrange(
                0,
                i as int + 1,
            ));
            if i == 0 {
                assert(out@ =~= before + emembs[i as int]);
            } else {
                assert(out@ =~= before + seq![','] + emembs[i as int]);
                assert(before + seq![','] + emembs[i as int] =~= prefix0 + (join_sep(
                    emembs.subrange(0, i as int),
                    seq![','],
                ) + seq![','] + emembs[i as int]));
            }
        }
        i = i + 1;
    }
    proof {
        assert(emembs.subrange(0, n as int) =~= emembs);
    }
    append_raw(&mut out, "],\"responses\":{");
    let ghost rmembs = named_members(c.responses@, |r: ConfigResponse| response_json(r));
    let ghost prefix1 = out@;
    let rn = c.responses.len();
    let mut i: usize = 0;
    proof {
        assert(rmembs.subrange(0, 0) =~= Seq::<Seq<char>>::empty());
        assert(out@ + join_sep(Seq::<Seq<char>>::empty(), seq![',']) =~= out@);
    }
    while i < rn
        invariant
            rn == c.responses@.len(),
            rmembs == named_members(c.responses@, |r: ConfigResponse| response_json(r)),
            rmembs.len() == rn,
            i <= rn,
            out@ == prefix1 + join_sep(rmembs.subrange(0, i as int), seq![',']),
        decreases rn - i,
    {
        let ghost before = out@;
        if i > 0 {
            push_char(&mut out, ',');
        }
        append_json_string(&mut out, c.responses[i].0.as_str());
        push_char(&mut out, ':');
        append_response_json(&mut out, &c.responses[i].1);
        proof {
            crate::jsontext::lemma_join_sep_snoc(
                rmembs.subrange(0, i as int),
                seq![','],
                rmembs[i as int],
            );
            assert(rmembs.subrange(0, i as int).push(rmembs[i as int]) =~= rmembs.subrange(
                0,
                i as int + 1,
            ));
            if i == 0 {
                assert(out@ =~= before + rmembs[i as int]);
            } else {
                assert(out@ =~= before + seq![','] + rmembs[i as int]);
                assert(before + seq![','] + rmembs[i as int] =~= prefix1 + (join_sep(
                    rmembs.subrange(0, i as int),
                    seq![','],
                ) + seq![','] + rmembs[i as int]));
            }
        }
        i = i + 1;
    }
    proof {
        assert(rmembs.subrange(0, rn as int) =~= rmembs);
    }
    append_raw(&mut out, "},\"macros\":{");
    let ghost mmembs = named_members(c.macros@, |m: ConfigMacro| macro_json(m));
    let ghost prefix2 = out@;
    let mn = c.macros.len();
    let mut i: usize = 0;
    proof {
        assert(mmembs.subrange(0, 0) =~= Seq::<Seq<char>>::empty());
        assert(out@ + join_sep(Seq::<Seq<char>>::empty(), seq![',']) =~= out@);
    }
    while i < mn
        invariant
            mn == c.macros@.len(),
            mmembs == named_members(c.macros@, |m: ConfigMacro| macro_json(m)),
            mmembs.len() == mn,
            i <= mn,
            out@ == prefix2 + join_sep(mmembs.subrange(0, i as int), seq![',']),
        decreases mn - i,
    {
        let ghost before = out@;
        if i > 0 {
            push_char(&mut out, ',');
        }
        append_json_string(&mut out, c.macros[i].0.as_str());
        push_char(&mut out, ':');
        append_macro_json(&mut out, &c.macros[i].1);
        proof {
            crate::jsontext::lemma_join_sep_snoc(
                mmembs.subrange(0, i as int),
                seq![','],
                mmembs[i as int],
            );
            assert(mmembs.subrange(0, i as int).push(mmembs[i as int]) =~= mmembs.subrange(
                0,
                i as int + 1,
            ));
            if i == 0 {
                assert(out@ =~= before + mmembs[i as int]);
            } else {
                assert(out@ =~= before + seq![','] + mmembs[i as int]);
                assert(before + seq![','] + mmembs[i as int] =~= prefix2 + (join_sep(
                    mmembs.subrange(0, i as int),
                    seq![','],
                ) + seq![','] + mmembs[i as int]));
            }
        }
        i = i + 1;
    }
    proof {
        assert(mmembs.subrange(0, mn as int) =~= mmembs);
    }
    append_raw(&mut out, "},\"providers\":{");
    let ghost pmembs = named_members(c.providers@, |p: ConfigProvider| provider_cfg_json(p));
    let ghost prefix3 = out@;
    let pn = c.providers.len();
    let mut i: usize = 0;
    proof {
        assert(pmembs.subrange(0, 0) =~= Seq::<Seq<char>>::empty());
        assert(out@ + join_sep(Seq::<Seq<char>>::empty(), seq![',']) =~= out@);
    }
    while i < pn
        invariant
            pn == c.providers@.len(),
            pmembs == named_members(c.providers@, |p: ConfigProvider| provider_cfg_json(p)),
            pmembs.len() == pn,
            i <= pn,
            out@ == prefix3 + join_sep(pmembs.subrange(0, i as int), seq![',']),
        decreases pn - i,
    {
        let ghost before = out@;
        if i > 0 {
            push_char(&mut out, ',');
        }
        append_json_string(&mut out, c.providers[i].0.as_str());
        push_char(&mut out, ':');
        append_provider_cfg_json(&mut out, &c.providers[i].1);
        proof {
            crate::jsontext::lemma_join_sep_snoc(
                pmembs.subrange(0, i as int),
                seq![','],
                pmembs[i as int],
            );
            assert(pmembs.subrange(0, i as int).push(pmembs[i as int]) =~= pmembs.subrange(
                0,
                i as int + 1,
            ));
            if i == 0 {
                assert(out@ =~= before + pmembs[i as int]);
            } else {
                assert(out@ =~= before + seq![','] + pmembs[i as int]);
                assert(before + seq![','] + pmembs[i as int] =~= prefix3 + (join_sep(
                    pmembs.subrange(0, i as int),
                    seq![','],
                ) + seq![','] + pmembs[i as int]));
            }
        }
        i = i + 1;
    }
    proof {
        assert(pmembs.subrange(0, pn as int) =~= pmembs);
    }
    append_raw(&mut out, "},\"helpPrompt\":");
    append_string_array_json(&mut out, &c.help_prompt);
    append_raw(&mut out, ",\"categorizePrompt\":");
    append_string_array_json(&mut out, &c.categorize_prompt);
    append_raw(&mut out, ",\"messageHistory\":");
    let num = usize_to_string(c.message_history);
    append_raw(&mut out, num.as_str());
    push_char(&mut out, '}');
    proof {
        assert(out@ =~= headless_config_json(*c));
    }
    out
}

/// The help and categorize prompt bodies, rendered once at startup
/// against the configuration itself.
pub fn build_info_prompts(c: &BotConfig) -> (r: Result<(String, String), ResolveError>)
    ensures
        r is Ok <==> (render_outcome(
            joined_lines(c.help_prompt@.map_values(|s: String| s@)),
            headless_config_json(*c),
        ) is Some && render_outcome(
            joined_lines(c.categorize_prompt@.map_values(|s: String| s@)),
            headless_config_json(*c),
        ) is Some),
        r matches Ok(p) ==> render_outcome(
            joined_lines(c.help_prompt@.map_values(|s: String| s@)),
            headless_config_json(*c),
        ) == Some(p.0@) && render_outcome(
            joined_lines(c.categorize_prompt@.map_values(|s: String| s@)),
            headless_config_json(*c),
        ) == Some(p.1@),
        r matches Err(e) ==> e is Template,
{
    let ctx = config_ctx_json(c);
    let help = match render_template_lines(&c.help_prompt, ctx.as_str()) {
        Ok(h) => h,
        Err(e) => {
            return Err(e);
        },
    };
    let categorize = match render_template_lines(&c.categorize_prompt, ctx.as_str()) {
        Ok(h) => h,
        Err(e) => {
            return Err(e);
        },
    };
    Ok((help, categorize))
}

} // verus!
