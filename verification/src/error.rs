//! The request-fatal error taxonomy of the resolution engine.
//!
//! Nothing here is retried: every variant aborts the in-flight resolution
//! chain and is surfaced at the request boundary as an internal error with
//! a readable message.

use vstd::prelude::*;

verus! {

/// Why a resolution chain stopped.
#[derive(Debug, PartialEq, Eq)]
pub enum ResolveError {
    /// A template failed to compile or render.
    Template { detail: String },
    /// A task id named an unknown kind or a missing entry.
    UnresolvedTask { task: String },
    /// A task kind that cannot run as an intermediate, buffered step.
    UnsupportedBufferedTask { task: String },
    /// A task kind that cannot terminate a request as a stream.
    UnresolvedStreamableTask { task: String },
    /// No definition could be loaded for the named provider.
    ProviderNotFound { provider: String },
    /// A supplied provider property matches no declared rule.
    PropRuleMissing { prop: String },
    /// A property a rule marks as required was not supplied.
    RequiredPropMissing { prop: String },
    /// The provider call failed or returned something that is not JSON.
    ProviderCall { detail: String },
    /// The model transport failed.
    Transport { detail: String },
    /// The configuration itself is unusable.
    ConfigValidation { detail: String },
}

/// The readable message for an error, pinned character by character.
pub open spec fn message_spec(e: ResolveError) -> Seq<char> {
    match e {
        ResolveError::Template { detail } => "template error: "@ + detail@,
        ResolveError::UnresolvedTask { task } => "unresolved task `"@ + task@ + "`"@,
        ResolveError::UnsupportedBufferedTask { task } => "`"@ + task@
            + "` can't be run as an intermediate task"@,
        ResolveError::UnresolvedStreamableTask { task } => "`"@ + task@
            + "` can't be resolved to a stream"@,
        ResolveError::ProviderNotFound { provider } => "`"@ + provider@ + "` is not a provider"@,
        ResolveError::PropRuleMissing { prop } => "no prop rule found for `"@ + prop@ + "`"@,
        ResolveError::RequiredPropMissing { prop } => "required prop `"@ + prop@ + "` not found"@,
        ResolveError::ProviderCall { detail } => "provider call failed: "@ + detail@,
        ResolveError::Transport { detail } => "transport failed: "@ + detail@,
        ResolveError::ConfigValidation { detail } => "invalid configuration: "@ + detail@,
    }
}

impl ResolveError {
    /// The human-readable message surfaced at the request boundary.
    pub fn message(&self) -> (r: String)
        ensures
            r@ == message_spec(*self),
    {
        let mut out = String::new();
        match self {
            ResolveError::Template { detail } => {
                crate::jsontext::append_raw(&mut out, "template error: ");
                crate::jsontext::append_raw(&mut out, detail.as_str());
            },
            ResolveError::UnresolvedTask { task } => {
                crate::jsontext::append_raw(&mut out, "unresolved task `");
                crate::jsontext::append_raw(&mut out, task.as_str());
                crate::jsontext::append_raw(&mut out, "`");
            },
            ResolveError::UnsupportedBufferedTask { task } => {
                crate::jsontext::append_raw(&mut out, "`");
                crate::jsontext::append_raw(&mut out, task.as_str());
                crate::jsontext::append_raw(&mut out, "` can't be run as an intermediate task");
            },
            ResolveError::UnresolvedStreamableTask { task } => {
                crate::jsontext::append_raw(&mut out, "`");
                crate::jsontext::append_raw(&mut out, task.as_str());
                crate::jsontext::append_raw(&mut out, "` can't be resolved to a stream");
            },
            ResolveError::ProviderNotFound { provider } => {
                crate::jsontext::append_raw(&mut out, "`");
                crate::jsontext::append_raw(&mut out, provider.as_str());
                crate::jsontext::append_raw(&mut out, "` is not a provider");
            },
            ResolveError::PropRuleMissing { prop } => {
                crate::jsontext::append_raw(&mut out, "no prop rule found for `");
                crate::jsontext::append_raw(&mut out, prop.as_str());
                crate::jsontext::append_raw(&mut out, "`");
            },
            ResolveError::RequiredPropMissing { prop } => {
                crate::jsontext::append_raw(&mut out, "required prop `");
                crate::jsontext::append_raw(&mut out, prop.as_str());
                crate::jsontext::append_raw(&mut out, "` not found");
            },
            ResolveError::ProviderCall { detail } => {
                crate::jsontext::append_raw(&mut out, "provider call failed: ");
                crate::jsontext::append_raw(&mut out, detail.as_str());
            },
            ResolveError::Transport { detail } => {
                crate::jsontext::append_raw(&mut out, "transport failed: ");
                crate::jsontext::append_raw(&mut out, detail.as_str());
            },
            ResolveError::ConfigValidation { detail } => {
                crate::jsontext::append_raw(&mut out, "invalid configuration: ");
                crate::jsontext::append_raw(&mut out, detail.as_str());
            },
        }
        proof {
            assert(out@ =~= message_spec(*self));
        }
        out
    }
}

} // verus!
