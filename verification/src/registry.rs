//! The tools that can be called, and who handles them.

use std::sync::Arc;

pub use vstd::hash_map::StringHashMap;
use vstd::prelude::*;
use vstd::string::*;

use crate::context::PayloadModel;
use crate::context::ToolPayload;

verus! {

/// The kind of payload that a handler takes.
#[derive(Clone, Copy, Debug, PartialEq, Eq, Hash, Structural)]
pub enum ToolKind {
    Function,
    Mcp,
}

/// Whether a kind of handler takes a payload.
pub open spec fn kind_takes(kind: ToolKind, payload: PayloadModel) -> bool {
    match kind {
        ToolKind::Function => payload is Function,
        ToolKind::Mcp => payload is Mcp,
    }
}

impl ToolKind {
    /// Whether this kind of handler takes a payload.
    pub fn takes(self, payload: &ToolPayload) -> (result: bool)
        ensures
            result == kind_takes(self, payload@),
    {
        match (self, payload) {
            (ToolKind::Function, ToolPayload::Function { .. }) => true,
            (ToolKind::Mcp, ToolPayload::Mcp { .. }) => true,
            _ => false,
        }
    }
}

/// Handles the calls of a tool.
pub trait ToolHandler {
    /// The kind of payload that this handler takes.
    fn kind(&self) -> (kind: ToolKind);

    /// Whether this handler takes the payload: by default, whether its kind does.
    fn matches_kind(&self, payload: &ToolPayload) -> (result: bool)
        default_ensures
            exists|kind: ToolKind| #[trigger]
                call_ensures(Self::kind, (self,), kind) && result == kind_takes(kind, payload@),
    {
        let kind = self.kind();
        assert(call_ensures(Self::kind, (self,), kind));
        kind.takes(payload)
    }
}

/// The handler that is found under a name.
pub open spec fn found_handler<H>(
    handlers: Map<Seq<char>, Arc<H>>,
    name: Seq<char>,
) -> Option<Arc<H>> {
    if handlers.contains_key(name) {
        Some(handlers[name])
    } else {
        None
    }
}

/// The handlers of all tools, by the name of the tool.
#[verifier::reject_recursive_types(H)]
pub struct ToolRegistry<H> {
    handlers: StringHashMap<Arc<H>>,
}

impl<H> View for ToolRegistry<H> {
    type V = Map<Seq<char>, Arc<H>>;

    closed spec fn view(&self) -> Map<Seq<char>, Arc<H>> {
        self.handlers@
    }
}

impl<H> ToolRegistry<H> {
    /// A registry of the given handlers.
    pub fn new(handlers: StringHashMap<Arc<H>>) -> (registry: ToolRegistry<H>)
        ensures
            registry@ == handlers@,
    {
        ToolRegistry { handlers }
    }

    /// The handler of a tool.
    pub fn handler(&self, name: &str) -> (handler: Option<Arc<H>>)
        ensures
            handler == found_handler(self@, name@),
    {
        match self.handlers.get(name) {
            Some(handler) => Some(Arc::clone(handler)),
            None => None,
        }
    }
}

/// A tool as the model is told of it, and whether calls of it may run at the same time.
#[derive(Debug, PartialEq, Eq)]
pub struct ConfiguredToolSpec<S> {
    pub spec: S,
    pub supports_parallel_tool_calls: bool,
}

impl<S> ConfiguredToolSpec<S> {
    pub fn new(spec: S, supports_parallel_tool_calls: bool) -> (configured: ConfiguredToolSpec<S>)
        ensures
            configured == (ConfiguredToolSpec { spec, supports_parallel_tool_calls }),
    {
        ConfiguredToolSpec { spec, supports_parallel_tool_calls }
    }
}

/// Collects tools and their handlers.
#[verifier::reject_recursive_types(H)]
pub struct ToolRegistryBuilder<S, H> {
    handlers: StringHashMap<Arc<H>>,
    specs: Vec<ConfiguredToolSpec<S>>,
}

impl<S, H> ToolRegistryBuilder<S, H> {
    /// The handlers collected so far, by the name of the tool.
    pub closed spec fn handlers(&self) -> Map<Seq<char>, Arc<H>> {
        self.handlers@
    }

    /// The tools collected so far, in the order in which they came.
    pub closed spec fn specs(&self) -> Seq<ConfiguredToolSpec<S>> {
        self.specs@
    }

    /// A builder that has collected nothing.
    pub fn new() -> (builder: ToolRegistryBuilder<S, H>)
        ensures
            builder.handlers() == Map::<Seq<char>, Arc<H>>::empty(),
            builder.specs() == Seq::<ConfiguredToolSpec<S>>::empty(),
    {
        ToolRegistryBuilder { handlers: StringHashMap::new(), specs: Vec::new() }
    }

    /// Adds a tool whose calls do not run at the same time.
    pub fn push_spec(&mut self, spec: S)
        ensures
            final(self).specs() == old(self).specs().push(
                ConfiguredToolSpec { spec, supports_parallel_tool_calls: false },
            ),
            final(self).handlers() == old(self).handlers(),
    {
        self.push_spec_with_parallel_support(spec, false);
    }

    /// Adds a tool.
    pub fn push_spec_with_parallel_support(&mut self, spec: S, supports_parallel_tool_calls: bool)
        ensures
            final(self).specs() == old(self).specs().push(
                ConfiguredToolSpec { spec, supports_parallel_tool_calls },
            ),
            final(self).handlers() == old(self).handlers(),
    {
        self.specs.push(ConfiguredToolSpec::new(spec, supports_parallel_tool_calls));
    }

    /// Registers the handler of a tool, and tells whether it replaces another.
    pub fn register_handler(&mut self, name: String, handler: Arc<H>) -> (replaced: bool)
        ensures
            replaced == old(self).handlers().contains_key(name@),
            final(self).handlers() == old(self).handlers().insert(name@, handler),
            final(self).specs() == old(self).specs(),
    {
        let replaced = self.handlers.contains_key(name.as_str());
        self.handlers.insert(name, handler);
        replaced
    }

    /// The tools, in the order in which they came, and the registry of their handlers.
    pub fn build(self) -> (built: (Vec<ConfiguredToolSpec<S>>, ToolRegistry<H>))
        ensures
            built.0@ == self.specs(),
            built.1@ == self.handlers(),
    {
        let registry = ToolRegistry::new(self.handlers);
        (self.specs, registry)
    }
}

/// The message for a call of a tool that has no handler.
pub open spec fn unsupported_message(payload: PayloadModel, tool_name: Seq<char>) -> Seq<char> {
    match payload {
        PayloadModel::Custom { .. } => "unsupported custom tool call: "@ + tool_name,
        _ => "unsupported call: "@ + tool_name,
    }
}

/// The message for a call of a tool that has no handler.
pub fn unsupported_tool_call_message(payload: &ToolPayload, tool_name: &str) -> (message: String)
    ensures
        message@ == unsupported_message(payload@, tool_name@),
{
    let mut message = match payload {
        ToolPayload::Custom { .. } => "unsupported custom tool call: ".to_string(),
        _ => "unsupported call: ".to_string(),
    };
    message.append(tool_name);
    message
}

/// A handler is found under the name that it was registered with last, and registering it
/// changes what is found under no other name.
pub proof fn law_last_registration_counts<H>(
    handlers: Map<Seq<char>, Arc<H>>,
    name: Seq<char>,
    handler: Arc<H>,
    other: Seq<char>,
)
    ensures
        found_handler(handlers.insert(name, handler), name) == Some(handler),
        other != name ==> found_handler(handlers.insert(name, handler), other) == found_handler(
            handlers,
            other,
        ),
{
}

/// Neither a custom call nor a shell call matches a handler by its kind.
pub proof fn law_kinds_take_no_custom_and_no_shell_call(kind: ToolKind, payload: PayloadModel)
    requires
        payload is Custom || payload is LocalShell,
    ensures
        !kind_takes(kind, payload),
{
}

/// A handler takes the payloads of its own kind, whatever they hold, and no others.
pub proof fn law_kinds_take_their_own_payloads(payload: PayloadModel)
    ensures
        kind_takes(ToolKind::Function, payload) <==> payload is Function,
        kind_takes(ToolKind::Mcp, payload) <==> payload is Mcp,
{
}

/// What is found under a name is what stands there, and nothing where nothing does.
pub proof fn law_what_is_registered_is_found<H>(handlers: Map<Seq<char>, Arc<H>>, name: Seq<char>)
    ensures
        handlers.contains_key(name) ==> found_handler(handlers, name) == Some(handlers[name]),
        !handlers.contains_key(name) ==> found_handler(handlers, name) is None,
{
}

/// The message for a tool without a handler names the tool, and says so of a custom call.
pub proof fn law_unsupported_calls_are_named(payload: PayloadModel, tool_name: Seq<char>)
    ensures
        payload is Custom ==> unsupported_message(payload, tool_name)
            == "unsupported custom tool call: "@ + tool_name,
        !(payload is Custom) ==> unsupported_message(payload, tool_name) == "unsupported call: "@
            + tool_name,
{
}

} // verus!
