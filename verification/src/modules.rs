//! The standard module loader: two independent relays sharing one handle,
//! one carrying module-specifier resolution requests, the other carrying
//! source-fetch requests.
//!
//! The embedded engine's module graph walker calls resolve and then load
//! once per edge of the module dependency graph; the consumer answers each
//! request by correlation id. The loader performs no caching — that is the
//! engine's responsibility.

use crate::relay::Relay;
use crate::relay::RelayView;
use vstd::prelude::*;

verus! {

/// A module-specifier resolution request, as issued by the engine.
#[derive(Debug, Clone, PartialEq, Eq)]
pub struct ResolveRequest {
    /// The specifier as written in the importing module.
    pub specifier: String,
    /// The specifier of the importing module.
    pub referrer: String,
    /// Whether this resolves the entry point of the module graph.
    pub is_main: bool,
    /// Whether this resolves a dynamic import.
    pub is_dyn_import: bool,
}

/// The consumer's answer to a resolution request.
#[derive(Debug, Clone, PartialEq, Eq)]
pub enum ResolveAnswer {
    /// The resolved canonical specifier.
    Resolved(String),
    /// Resolution failed; the message describes why.
    ResolveFailed(String),
}

/// A source-fetch request, as issued by the engine for a resolved specifier.
#[derive(Debug, Clone, PartialEq, Eq)]
pub struct LoadRequest {
    /// The resolved specifier whose source is wanted.
    pub specifier: String,
    /// The specifier of the module that requested it, if any.
    pub maybe_referrer: Option<String>,
}

/// The consumer's answer to a source-fetch request.
#[derive(Debug, Clone, PartialEq, Eq)]
pub enum LoadAnswer {
    /// The source was found, possibly under a different (redirected) URL.
    Loaded { url_found: String, code: String },
    /// Loading failed; the message describes why.
    LoadFailed(String),
}

/// One loaded module as handed to the engine: the URL the engine asked for,
/// the URL the source was actually found under, and the source text.
#[derive(Debug, Clone, PartialEq, Eq)]
pub struct ModuleSource {
    pub module_url_specified: String,
    pub module_url_found: String,
    pub code: String,
}

/// The standard loader: a resolve relay and a load relay, driven through
/// one shared handle. The relays are independent; their correlation-id
/// spaces are separate.
pub struct ModuleLoader {
    pub resolve: Relay<ResolveRequest, ResolveAnswer>,
    pub load: Relay<LoadRequest, LoadAnswer>,
}

impl ModuleLoader {
    /// Both relays are well-formed.
    pub open spec fn wf(self) -> bool {
        self.resolve@.wf() && self.load@.wf()
    }

    /// A fresh loader: both relays empty.
    pub fn new() -> (r: Self)
        ensures
            r.wf(),
            r.resolve@ == (RelayView {
                next_id: 0u32,
                queue: Seq::<(u32, ResolveRequest)>::empty(),
                slots: Map::<u32, crate::relay::SlotState<ResolveAnswer>>::empty(),
            }),
            r.load@ == (RelayView {
                next_id: 0u32,
                queue: Seq::<(u32, LoadRequest)>::empty(),
                slots: Map::<u32, crate::relay::SlotState<LoadAnswer>>::empty(),
            }),
    {
        ModuleLoader { resolve: Relay::new(), load: Relay::new() }
    }
}

/// Assembles the engine-facing record for one answered load request. The
/// engine knows which URL it asked for; the consumer's answer supplies the
/// URL the source was found under and the source text, or a failure message.
pub fn into_module_source(specified: String, answer: LoadAnswer) -> (r: Result<
    ModuleSource,
    String,
>)
    ensures
        match answer {
            LoadAnswer::Loaded { url_found, code } => r == Ok::<ModuleSource, String>(
                ModuleSource {
                    module_url_specified: specified,
                    module_url_found: url_found,
                    code: code,
                },
            ),
            LoadAnswer::LoadFailed(message) => r == Err::<ModuleSource, String>(message),
        },
{
    match answer {
        LoadAnswer::Loaded { url_found, code } => Ok(
            ModuleSource { module_url_specified: specified, module_url_found: url_found, code },
        ),
        LoadAnswer::LoadFailed(message) => Err(message),
    }
}

} // verus!
