//! Dispatching a tool call: who handles it, which hooks see it, when it runs, and what it
//! ends with.

use std::sync::Arc;

use vstd::pervasive::arbitrary;
use vstd::pervasive::unreached;
use vstd::prelude::*;
use vstd::string::*;

use crate::context::ErrorModel;
use crate::context::FunctionCallError;
use crate::context::InvocationModel;
use crate::context::PayloadModel;
use crate::context::ShellParamsModel;
use crate::context::ShellToolCallParams;
use crate::context::ToolInvocation;
use crate::context::ToolPayload;
use crate::hooks::added_context;
use crate::hooks::block_error;
use crate::hooks::blocked_message;
use crate::hooks::blocking;
use crate::hooks::hook_block_error;
use crate::hooks::hook_payload_model;
use crate::hooks::last_update;
use crate::hooks::law_first_block_counts;
use crate::hooks::law_hook_errors_stop_nothing;
use crate::hooks::opt_error;
use crate::hooks::opt_tree;
use crate::hooks::outcome_models;
use crate::hooks::post_tool_use_event;
use crate::hooks::post_tool_use_failure_event;
use crate::hooks::post_tool_use_failure_payload;
use crate::hooks::post_tool_use_payload;
use crate::hooks::post_tool_use_verdict;
use crate::hooks::pre_tool_use_event;
use crate::hooks::pre_tool_use_payload;
use crate::hooks::pre_tool_use_verdict;
use crate::hooks::same_but_for_errors;
use crate::hooks::tool_response;
use crate::hooks::tool_response_tree;
use crate::hooks::until_block;
use crate::hooks::HookEventModel;
use crate::hooks::HookOutcome;
use crate::hooks::HookPayload;
use crate::hooks::HookPayloadModel;
use crate::hooks::OutcomeModel;
use crate::json::reads_back;
use crate::json::Json;
use crate::json::JsonTree;
use crate::policy::approval_tag;
use crate::policy::policy_tag;
use crate::policy::sandbox_policy_tag;
use crate::registry::found_handler;
use crate::registry::unsupported_message;
use crate::registry::unsupported_tool_call_message;
use crate::registry::ToolHandler;
use crate::registry::ToolRegistry;
use crate::text::opt_text;
use crate::text::texts;
use crate::tool_input::apply_text_input;
use crate::tool_input::input_text;
use crate::tool_input::params_result;
use crate::tool_input::payload_input;
use crate::tool_input::same_target;
use crate::tool_input::shows_value;
use crate::tool_input::store_shell_params;
use crate::tool_input::stored_params;
use crate::tool_input::stored_text;
use crate::tool_input::with_input_text;

verus! {

/// How the run of a tool went. `preview` is its output as logs show it, `text` its error as
/// text.
pub enum ToolRun<O> {
    Completed { output: Option<O>, preview: String, success: bool },
    Failed { error: FunctionCallError, text: String },
}

/// The model of `ToolRun`.
pub ghost enum RunModel<O> {
    Completed { output: Option<O>, preview: Seq<char>, success: bool },
    Failed { error: ErrorModel, text: Seq<char> },
}

impl<O> View for ToolRun<O> {
    type V = RunModel<O>;

    open spec fn view(&self) -> RunModel<O> {
        match self {
            ToolRun::Completed { output, preview, success } => RunModel::Completed {
                output: *output,
                preview: preview@,
                success: *success,
            },
            ToolRun::Failed { error, text } => RunModel::Failed { error: error@, text: text@ },
        }
    }
}

/// Whether a run counts as a success.
pub open spec fn run_success<O>(run: RunModel<O>) -> bool {
    run matches RunModel::Completed { success, .. } && success
}

/// The text that stands for a run in logs and hooks.
pub open spec fn run_text<O>(run: RunModel<O>) -> Seq<char> {
    match run {
        RunModel::Completed { preview, .. } => preview,
        RunModel::Failed { text, .. } => text,
    }
}

/// What a call ends with whose run no hook has blocked.
pub open spec fn run_result<O>(run: RunModel<O>) -> Result<O, ErrorModel> {
    match run {
        RunModel::Completed { output: Some(output), .. } => Ok(output),
        RunModel::Completed { output: None, .. } => Err(
            ErrorModel::Fatal("tool produced no output"@),
        ),
        RunModel::Failed { error, .. } => Err(error),
    }
}

/// What the caller is to do next.
pub enum DispatchAction<O> {
    /// Ask the handler whether the call may change anything.
    AskMutating,
    /// Read the path of the transcript of the session.
    ReadTranscriptPath,
    /// Run the hooks that match.
    DispatchHooks(HookPayload),
    /// Record the context that hooks have added.
    RecordHookContext(Vec<String>),
    /// Read a rewritten input as shell parameters.
    DecodeShellParams(Json),
    /// Wait until calls that change something may run.
    WaitForGate,
    /// Let the handler handle the call, with the payload as it now is.
    RunTool,
    /// Count a call that reads.
    EmitReadMetric { success: bool },
    /// The call has ended.
    Finish(Result<O, FunctionCallError>),
}

/// What came of the last action.
pub enum DispatchEvent<O> {
    Mutating(bool),
    TranscriptPath(Option<String>),
    HookOutcomes(Vec<HookOutcome>),
    ContextRecorded,
    ShellParamsDecoded(Result<ShellToolCallParams, String>),
    GateReady,
    ToolFinished { run: ToolRun<O>, millis: u128 },
    ReadMetricEmitted,
}

/// How far a call has come.
pub enum DispatchPhase<O> {
    AwaitMutating,
    AwaitPreTranscript { mutating: bool },
    AwaitPreHooks { mutating: bool },
    AwaitPreContext {
        mutating: bool,
        updated_input: Option<Json>,
        blocked: Option<FunctionCallError>,
    },
    AwaitShellParams { mutating: bool, blocked: Option<FunctionCallError> },
    AwaitGate,
    AwaitTool { mutating: bool },
    AwaitReadMetric { mutating: bool, run: ToolRun<O>, millis: u128 },
    AwaitPostTranscript { mutating: bool, run: ToolRun<O>, millis: u128 },
    AwaitPostHooks { run: ToolRun<O> },
    AwaitPostContext { run: ToolRun<O>, blocked: Option<FunctionCallError> },
    Finished,
}

/// The model of `DispatchAction`.
pub ghost enum ActionModel<O> {
    AskMutating,
    ReadTranscriptPath,
    DispatchHooks(HookPayloadModel),
    RecordHookContext(Seq<Seq<char>>),
    DecodeShellParams(JsonTree),
    WaitForGate,
    RunTool,
    EmitReadMetric { success: bool },
    Finish(Result<O, ErrorModel>),
}

/// The model of `DispatchEvent`.
pub ghost enum EventModel<O> {
    Mutating(bool),
    TranscriptPath(Option<Seq<char>>),
    HookOutcomes(Seq<OutcomeModel>),
    ContextRecorded,
    ShellParamsDecoded(Result<ShellParamsModel, Seq<char>>),
    GateReady,
    ToolFinished { run: RunModel<O>, millis: u128 },
    ReadMetricEmitted,
}

/// The model of `DispatchPhase`.
pub ghost enum PhaseModel<O> {
    AwaitMutating,
    AwaitPreTranscript { mutating: bool },
    AwaitPreHooks { mutating: bool },
    AwaitPreContext {
        mutating: bool,
        updated_input: Option<JsonTree>,
        blocked: Option<ErrorModel>,
    },
    AwaitShellParams { mutating: bool, blocked: Option<ErrorModel> },
    AwaitGate,
    AwaitTool { mutating: bool },
    AwaitReadMetric { mutating: bool, run: RunModel<O>, millis: u128 },
    AwaitPostTranscript { mutating: bool, run: RunModel<O>, millis: u128 },
    AwaitPostHooks { run: RunModel<O> },
    AwaitPostContext { run: RunModel<O>, blocked: Option<ErrorModel> },
    Finished,
}

/// A result, with the model of its error.
pub open spec fn result_model<O>(result: Result<O, FunctionCallError>) -> Result<O, ErrorModel> {
    match result {
        Ok(o) => Ok(o),
        Err(e) => Err(e@),
    }
}

impl<O> View for DispatchAction<O> {
    type V = ActionModel<O>;

    open spec fn view(&self) -> ActionModel<O> {
        match self {
            DispatchAction::AskMutating => ActionModel::AskMutating,
            DispatchAction::ReadTranscriptPath => ActionModel::ReadTranscriptPath,
            DispatchAction::DispatchHooks(payload) => ActionModel::DispatchHooks(payload@),
            DispatchAction::RecordHookContext(context) => ActionModel::RecordHookContext(
                texts(context@),
            ),
            DispatchAction::DecodeShellParams(json) => ActionModel::DecodeShellParams(json.tree()),
            DispatchAction::WaitForGate => ActionModel::WaitForGate,
            DispatchAction::RunTool => ActionModel::RunTool,
            DispatchAction::EmitReadMetric { success } => ActionModel::EmitReadMetric {
                success: *success,
            },
            DispatchAction::Finish(result) => ActionModel::Finish(result_model(*result)),
        }
    }
}

impl<O> View for DispatchEvent<O> {
    type V = EventModel<O>;

    open spec fn view(&self) -> EventModel<O> {
        match self {
            DispatchEvent::Mutating(mutating) => EventModel::Mutating(*mutating),
            DispatchEvent::TranscriptPath(path) => EventModel::TranscriptPath(opt_text(*path)),
            DispatchEvent::HookOutcomes(outcomes) => EventModel::HookOutcomes(
                outcome_models(outcomes@),
            ),
            DispatchEvent::ContextRecorded => EventModel::ContextRecorded,
            DispatchEvent::ShellParamsDecoded(decoded) => EventModel::ShellParamsDecoded(
                params_result(*decoded),
            ),
            DispatchEvent::GateReady => EventModel::GateReady,
            DispatchEvent::ToolFinished { run, millis } => EventModel::ToolFinished {
                run: run@,
                millis: *millis,
            },
            DispatchEvent::ReadMetricEmitted => EventModel::ReadMetricEmitted,
        }
    }
}

impl<O> View for DispatchPhase<O> {
    type V = PhaseModel<O>;

    open spec fn view(&self) -> PhaseModel<O> {
        match self {
            DispatchPhase::AwaitMutating => PhaseModel::AwaitMutating,
            DispatchPhase::AwaitPreTranscript { mutating } => PhaseModel::AwaitPreTranscript {
                mutating: *mutating,
            },
            DispatchPhase::AwaitPreHooks { mutating } => PhaseModel::AwaitPreHooks {
                mutating: *mutating,
            },
            DispatchPhase::AwaitPreContext { mutating, updated_input, blocked } =>
                PhaseModel::AwaitPreContext {
                mutating: *mutating,
                updated_input: opt_tree(*updated_input),
                blocked: opt_error(*blocked),
            },
            DispatchPhase::AwaitShellParams { mutating, blocked } => PhaseModel::AwaitShellParams {
                mutating: *mutating,
                blocked: opt_error(*blocked),
            },
            DispatchPhase::AwaitGate => PhaseModel::AwaitGate,
            DispatchPhase::AwaitTool { mutating } => PhaseModel::AwaitTool { mutating: *mutating },
            DispatchPhase::AwaitReadMetric { mutating, run, millis } =>
                PhaseModel::AwaitReadMetric { mutating: *mutating, run: run@, millis: *millis },
            DispatchPhase::AwaitPostTranscript { mutating, run, millis } =>
                PhaseModel::AwaitPostTranscript { mutating: *mutating, run: run@, millis: *millis },
            DispatchPhase::AwaitPostHooks { run } => PhaseModel::AwaitPostHooks { run: run@ },
            DispatchPhase::AwaitPostContext { run, blocked } => PhaseModel::AwaitPostContext {
                run: run@,
                blocked: opt_error(*blocked),
            },
            DispatchPhase::Finished => PhaseModel::Finished,
        }
    }
}

/// What metrics are told about a call.
#[derive(Debug, PartialEq, Eq)]
pub struct CallTags {
    pub sandbox: String,
    pub sandbox_policy: &'static str,
    pub mcp_server: Option<String>,
    pub mcp_server_origin: Option<String>,
}

/// The model of `CallTags`.
pub ghost struct TagsModel {
    pub sandbox: Seq<char>,
    pub sandbox_policy: Seq<char>,
    pub mcp_server: Option<Seq<char>>,
    pub mcp_server_origin: Option<Seq<char>>,
}

impl View for CallTags {
    type V = TagsModel;

    open spec fn view(&self) -> TagsModel {
        TagsModel {
            sandbox: self.sandbox@,
            sandbox_policy: self.sandbox_policy@,
            mcp_server: opt_text(self.mcp_server),
            mcp_server_origin: opt_text(self.mcp_server_origin),
        }
    }
}

/// What metrics are told about a call, given the origin of the MCP server that it names. A
/// call of another kind has neither server nor origin.
pub open spec fn tags_model(
    invocation: InvocationModel,
    server_origin: Option<Seq<char>>,
) -> TagsModel {
    TagsModel {
        sandbox: invocation.sandbox_tag,
        sandbox_policy: policy_tag(invocation.sandbox_policy),
        mcp_server: match invocation.payload {
            PayloadModel::Mcp { server, .. } => Some(server),
            _ => None,
        },
        mcp_server_origin: if invocation.payload is Mcp {
            server_origin
        } else {
            None
        },
    }
}

/// What metrics are told about a call.
pub fn call_tags(invocation: &ToolInvocation, server_origin: Option<String>) -> (tags: CallTags)
    ensures
        tags@ == tags_model(invocation@, opt_text(server_origin)),
{
    let (mcp_server, mcp_server_origin) = match &invocation.payload {
        ToolPayload::Mcp { server, .. } => (Some(server.clone()), server_origin),
        _ => (None, None),
    };
    CallTags {
        sandbox: invocation.turn.sandbox_tag.clone(),
        sandbox_policy: sandbox_policy_tag(&invocation.turn.sandbox_policy),
        mcp_server,
        mcp_server_origin,
    }
}

/// A call that was refused before anything ran. It is reported as a failure that took no
/// time, with `message`.
#[derive(Debug)]
pub struct RejectedCall {
    pub invocation: ToolInvocation,
    pub tags: CallTags,
    pub message: String,
    pub error: FunctionCallError,
}

/// A call on its way.
pub struct ToolDispatch<O> {
    invocation: ToolInvocation,
    tags: CallTags,
    phase: DispatchPhase<O>,
}

/// The model of `ToolDispatch`.
pub ghost struct DispatchModel<O> {
    pub invocation: InvocationModel,
    pub tags: TagsModel,
    pub phase: PhaseModel<O>,
}

impl<O> View for ToolDispatch<O> {
    type V = DispatchModel<O>;

    closed spec fn view(&self) -> DispatchModel<O> {
        DispatchModel { invocation: self.invocation@, tags: self.tags@, phase: self.phase@ }
    }
}

/// Whether an event answers the action that a phase waits for.
pub open spec fn awaited<O>(phase: PhaseModel<O>, event: EventModel<O>) -> bool {
    match phase {
        PhaseModel::AwaitMutating => event is Mutating,
        PhaseModel::AwaitPreTranscript { .. } => event is TranscriptPath,
        PhaseModel::AwaitPreHooks { .. } => event is HookOutcomes,
        PhaseModel::AwaitPreContext { .. } => event is ContextRecorded,
        PhaseModel::AwaitShellParams { .. } => event is ShellParamsDecoded,
        PhaseModel::AwaitGate => event is GateReady,
        PhaseModel::AwaitTool { .. } => event is ToolFinished,
        PhaseModel::AwaitReadMetric { .. } => event is ReadMetricEmitted,
        PhaseModel::AwaitPostTranscript { .. } => event is TranscriptPath,
        PhaseModel::AwaitPostHooks { .. } => event is HookOutcomes,
        PhaseModel::AwaitPostContext { .. } => event is ContextRecorded,
        PhaseModel::Finished => false,
    }
}

/// The name of the event at which hooks see a run.
pub open spec fn post_event_name<O>(run: RunModel<O>) -> Seq<char> {
    if run_success(run) {
        "post_tool_use"@
    } else {
        "post_tool_use_failure"@
    }
}

/// What hooks are told about a run.
pub open spec fn post_payload<O>(
    invocation: InvocationModel,
    transcript_path: Option<Seq<char>>,
    mutating: bool,
    run: RunModel<O>,
    millis: u128,
) -> HookPayloadModel {
    hook_payload_model(
        invocation,
        transcript_path,
        if run_success(run) {
            post_tool_use_event(
                invocation,
                tool_response_tree(true, true, millis, mutating, run_text(run)),
            )
        } else {
            post_tool_use_failure_event(invocation, run_text(run))
        },
    )
}

/// A call whose input is settled: it ends where hooks have blocked it, waits for its turn
/// where it may change something, and runs otherwise.
pub open spec fn settled<O>(
    call: DispatchModel<O>,
    mutating: bool,
    blocked: Option<ErrorModel>,
) -> (DispatchModel<O>, ActionModel<O>) {
    match blocked {
        Some(error) => (
            DispatchModel { phase: PhaseModel::Finished, ..call },
            ActionModel::Finish(Err(error)),
        ),
        None => if mutating {
            (DispatchModel { phase: PhaseModel::AwaitGate, ..call }, ActionModel::WaitForGate)
        } else {
            (
                DispatchModel { phase: PhaseModel::AwaitTool { mutating: false }, ..call },
                ActionModel::RunTool,
            )
        },
    }
}

/// A call with another payload.
pub open spec fn with_payload<O>(call: DispatchModel<O>, payload: PayloadModel) -> DispatchModel<O> {
    DispatchModel { invocation: InvocationModel { payload, ..call.invocation }, ..call }
}

/// The course of a call: where an event leads, and what is to be done there.
pub open spec fn next<O>(state: DispatchModel<O>, event: EventModel<O>) -> (
    DispatchModel<O>,
    ActionModel<O>,
) {
    let invocation = state.invocation;
    match (state.phase, event) {
        (PhaseModel::AwaitMutating, EventModel::Mutating(mutating)) => (
            DispatchModel { phase: PhaseModel::AwaitPreTranscript { mutating }, ..state },
            ActionModel::ReadTranscriptPath,
        ),
        (PhaseModel::AwaitPreTranscript { mutating }, EventModel::TranscriptPath(path)) => (
            DispatchModel { phase: PhaseModel::AwaitPreHooks { mutating }, ..state },
            ActionModel::DispatchHooks(
                hook_payload_model(invocation, path, pre_tool_use_event(invocation)),
            ),
        ),
        (PhaseModel::AwaitPreHooks { mutating }, EventModel::HookOutcomes(outcomes)) => (
            DispatchModel {
                phase: PhaseModel::AwaitPreContext {
                    mutating,
                    updated_input: last_update(until_block(outcomes)),
                    blocked: block_error(
                        "pre_tool_use"@,
                        blocking(outcomes),
                        invocation.tool_name,
                    ),
                },
                ..state
            },
            ActionModel::RecordHookContext(added_context(until_block(outcomes))),
        ),
        (
            PhaseModel::AwaitPreContext { mutating, updated_input, blocked },
            EventModel::ContextRecorded,
        ) => match updated_input {
            Some(updated) => if invocation.payload is LocalShell {
                (
                    DispatchModel {
                        phase: PhaseModel::AwaitShellParams { mutating, blocked },
                        ..state
                    },
                    ActionModel::DecodeShellParams(updated),
                )
            } else {
                settled(
                    with_payload(
                        state,
                        stored_text(invocation.payload, input_text(updated)).0,
                    ),
                    mutating,
                    blocked,
                )
            },
            None => settled(state, mutating, blocked),
        },
        (
            PhaseModel::AwaitShellParams { mutating, blocked },
            EventModel::ShellParamsDecoded(decoded),
        ) => settled(
            with_payload(state, stored_params(invocation.payload, decoded).0),
            mutating,
            blocked,
        ),
        (PhaseModel::AwaitGate, EventModel::GateReady) => (
            DispatchModel { phase: PhaseModel::AwaitTool { mutating: true }, ..state },
            ActionModel::RunTool,
        ),
        (PhaseModel::AwaitTool { mutating }, EventModel::ToolFinished { run, millis }) => (
            DispatchModel { phase: PhaseModel::AwaitReadMetric { mutating, run, millis }, ..state },
            ActionModel::EmitReadMetric { success: run_success(run) },
        ),
        (
            PhaseModel::AwaitReadMetric { mutating, run, millis },
            EventModel::ReadMetricEmitted,
        ) => (
            DispatchModel {
                phase: PhaseModel::AwaitPostTranscript { mutating, run, millis },
                ..state
            },
            ActionModel::ReadTranscriptPath,
        ),
        (
            PhaseModel::AwaitPostTranscript { mutating, run, millis },
            EventModel::TranscriptPath(path),
        ) => (
            DispatchModel { phase: PhaseModel::AwaitPostHooks { run }, ..state },
            ActionModel::DispatchHooks(post_payload(invocation, path, mutating, run, millis)),
        ),
        (PhaseModel::AwaitPostHooks { run }, EventModel::HookOutcomes(outcomes)) => (
            DispatchModel {
                phase: PhaseModel::AwaitPostContext {
                    run,
                    blocked: block_error(
                        post_event_name(run),
                        blocking(outcomes),
                        invocation.tool_name,
                    ),
                },
                ..state
            },
            ActionModel::RecordHookContext(added_context(outcomes)),
        ),
        (PhaseModel::AwaitPostContext { run, blocked }, EventModel::ContextRecorded) => (
            DispatchModel { phase: PhaseModel::Finished, ..state },
            ActionModel::Finish(
                match blocked {
                    Some(error) => Err(error),
                    None => run_result(run),
                },
            ),
        ),
        _ => arbitrary(),
    }
}

/// The message for a call whose handler does not take its payload.
pub open spec fn incompatible_message(tool_name: Seq<char>) -> Seq<char> {
    "tool "@ + tool_name + " invoked with incompatible payload"@
}

/// Why a call is refused, and the message that is reported, given whether a handler was found
/// and, if so, whether it takes the payload.
pub open spec fn refusal(invocation: InvocationModel, handler_takes: Option<bool>) -> Option<
    (Seq<char>, ErrorModel),
> {
    match handler_takes {
        None => {
            let message = unsupported_message(invocation.payload, invocation.tool_name);
            Some((message, ErrorModel::RespondToModel(message)))
        },
        Some(false) => {
            let message = incompatible_message(invocation.tool_name);
            Some((message, ErrorModel::Fatal(message)))
        },
        Some(true) => None,
    }
}

/// Whether `begun` is how a call begins, given whether a handler was found and, if so, whether
/// it takes the payload.
pub open spec fn begins_as<O>(
    invocation: InvocationModel,
    server_origin: Option<Seq<char>>,
    handler_takes: Option<bool>,
    begun: Result<(ToolDispatch<O>, DispatchAction<O>), RejectedCall>,
) -> bool {
    match begun {
        Ok((call, action)) => {
            &&& refusal(invocation, handler_takes) is None
            &&& call@ == (DispatchModel {
                invocation,
                tags: tags_model(invocation, server_origin),
                phase: PhaseModel::<O>::AwaitMutating,
            })
            &&& action@ is AskMutating
        },
        Err(rejected) => refusal(invocation, handler_takes) == Some(
            (rejected.message@, rejected.error@),
        ) && rejected.invocation@ == invocation && rejected.tags@ == tags_model(
            invocation,
            server_origin,
        ),
    }
}

/// Whether a call can be at its phase: shell parameters are awaited for a shell call only.
pub open spec fn well_formed<O>(call: DispatchModel<O>) -> bool {
    call.phase is AwaitShellParams ==> call.invocation.payload is LocalShell
}

impl<O> ToolDispatch<O> {
    #[verifier::type_invariant]
    spec fn inv(&self) -> bool {
        well_formed(self@)
    }

    /// Begins a call, given whether a handler was found and, if so, whether it takes the
    /// payload. The first thing to do is to ask whether the call may change anything.
    pub fn begin(
        invocation: ToolInvocation,
        server_origin: Option<String>,
        handler_takes: Option<bool>,
    ) -> (begun: Result<(ToolDispatch<O>, DispatchAction<O>), RejectedCall>)
        ensures
            begins_as(invocation@, opt_text(server_origin), handler_takes, begun),
    {
        let tags = call_tags(&invocation, server_origin);
        match handler_takes {
            None => {
                let message = unsupported_tool_call_message(
                    &invocation.payload,
                    invocation.tool_name.as_str(),
                );
                let error = FunctionCallError::RespondToModel(message.clone());
                Err(RejectedCall { invocation, tags, message, error })
            },
            Some(false) => {
                let mut message = "tool ".to_string();
                message.append(invocation.tool_name.as_str());
                message.append(" invoked with incompatible payload");
                let error = FunctionCallError::Fatal(message.clone());
                Err(RejectedCall { invocation, tags, message, error })
            },
            Some(true) => Ok(
                (
                    ToolDispatch { invocation, tags, phase: DispatchPhase::AwaitMutating },
                    DispatchAction::AskMutating,
                ),
            ),
        }
    }

    /// The call, with its payload as it now is.
    pub fn invocation(&self) -> (invocation: &ToolInvocation)
        ensures
            invocation@ == self@.invocation,
    {
        &self.invocation
    }

    /// What metrics are told about the call.
    pub fn tags(&self) -> (tags: &CallTags)
        ensures
            tags@ == self@.tags,
    {
        &self.tags
    }

    /// Whether an event answers the action that the call waits for.
    pub fn awaits(&self, event: &DispatchEvent<O>) -> (result: bool)
        ensures
            result == awaited(self@.phase, event@),
    {
        match (&self.phase, event) {
            (DispatchPhase::AwaitMutating, DispatchEvent::Mutating(_)) => true,
            (DispatchPhase::AwaitPreTranscript { .. }, DispatchEvent::TranscriptPath(_)) => true,
            (DispatchPhase::AwaitPreHooks { .. }, DispatchEvent::HookOutcomes(_)) => true,
            (DispatchPhase::AwaitPreContext { .. }, DispatchEvent::ContextRecorded) => true,
            (DispatchPhase::AwaitShellParams { .. }, DispatchEvent::ShellParamsDecoded(_)) => true,
            (DispatchPhase::AwaitGate, DispatchEvent::GateReady) => true,
            (DispatchPhase::AwaitTool { .. }, DispatchEvent::ToolFinished { .. }) => true,
            (DispatchPhase::AwaitReadMetric { .. }, DispatchEvent::ReadMetricEmitted) => true,
            (DispatchPhase::AwaitPostTranscript { .. }, DispatchEvent::TranscriptPath(_)) => true,
            (DispatchPhase::AwaitPostHooks { .. }, DispatchEvent::HookOutcomes(_)) => true,
            (DispatchPhase::AwaitPostContext { .. }, DispatchEvent::ContextRecorded) => true,
            _ => false,
        }
    }

    /// Goes on with a call whose input is settled.
    fn settle(
        invocation: ToolInvocation,
        tags: CallTags,
        mutating: bool,
        blocked: Option<FunctionCallError>,
    ) -> (moved: (ToolDispatch<O>, DispatchAction<O>))
        ensures
            forall|phase: PhaseModel<O>|
                (moved.0@, moved.1@) == #[trigger] settled(
                    DispatchModel { invocation: invocation@, tags: tags@, phase },
                    mutating,
                    opt_error(blocked),
                ),
    {
        match blocked {
            Some(error) => (
                ToolDispatch { invocation, tags, phase: DispatchPhase::Finished },
                DispatchAction::Finish(Err(error)),
            ),
            None => if mutating {
                (
                    ToolDispatch { invocation, tags, phase: DispatchPhase::AwaitGate },
                    DispatchAction::WaitForGate,
                )
            } else {
                (
                    ToolDispatch {
                        invocation,
                        tags,
                        phase: DispatchPhase::AwaitTool { mutating: false },
                    },
                    DispatchAction::RunTool,
                )
            },
        }
    }

    /// Goes on with a call at an event.
    pub fn step(self, event: DispatchEvent<O>) -> (moved: (ToolDispatch<O>, DispatchAction<O>))
        requires
            awaited(self@.phase, event@),
        ensures
            (moved.0@, moved.1@) == next(self@, event@),
            self@.phase matches PhaseModel::AwaitPreContext { updated_input: Some(updated), .. }
                ==> (!(self@.invocation.payload is LocalShell) ==> {
                let payload = moved.0@.invocation.payload;
                &&& input_text(updated) is Ok
                &&& payload == with_input_text(
                    self@.invocation.payload,
                    input_text(updated)->Ok_0,
                )
                &&& !(updated is Text) && reads_back(updated) ==> shows_value(payload, updated)
            }),
    {
        proof {
            use_type_invariant(&self);
        }
        let ToolDispatch { invocation, tags, phase } = self;
        match (phase, event) {
            (DispatchPhase::AwaitMutating, DispatchEvent::Mutating(mutating)) => (
                ToolDispatch {
                    invocation,
                    tags,
                    phase: DispatchPhase::AwaitPreTranscript { mutating },
                },
                DispatchAction::ReadTranscriptPath,
            ),
            (
                DispatchPhase::AwaitPreTranscript { mutating },
                DispatchEvent::TranscriptPath(path),
            ) => {
                let payload = pre_tool_use_payload(&invocation, path);
                (
                    ToolDispatch {
                        invocation,
                        tags,
                        phase: DispatchPhase::AwaitPreHooks { mutating },
                    },
                    DispatchAction::DispatchHooks(payload),
                )
            },
            (DispatchPhase::AwaitPreHooks { mutating }, DispatchEvent::HookOutcomes(outcomes)) => {
                let verdict = pre_tool_use_verdict(outcomes);
                let blocked = hook_block_error(
                    "pre_tool_use",
                    verdict.blocked,
                    invocation.tool_name.as_str(),
                );
                (
                    ToolDispatch {
                        invocation,
                        tags,
                        phase: DispatchPhase::AwaitPreContext {
                            mutating,
                            updated_input: verdict.updated_input,
                            blocked,
                        },
                    },
                    DispatchAction::RecordHookContext(verdict.additional_context),
                )
            },
            (
                DispatchPhase::AwaitPreContext { mutating, updated_input, blocked },
                DispatchEvent::ContextRecorded,
            ) => match updated_input {
                Some(updated) => {
                    let is_shell = match &invocation.payload {
                        ToolPayload::LocalShell { .. } => true,
                        _ => false,
                    };
                    if is_shell {
                        (
                            ToolDispatch {
                                invocation,
                                tags,
                                phase: DispatchPhase::AwaitShellParams { mutating, blocked },
                            },
                            DispatchAction::DecodeShellParams(updated),
                        )
                    } else {
                        let mut invocation = invocation;
                        let stored = apply_text_input(&mut invocation.payload, updated);
                        assert(stored is Ok);
                        Self::settle(invocation, tags, mutating, blocked)
                    }
                },
                None => Self::settle(invocation, tags, mutating, blocked),
            },
            (
                DispatchPhase::AwaitShellParams { mutating, blocked },
                DispatchEvent::ShellParamsDecoded(decoded),
            ) => {
                let mut invocation = invocation;
                let _ = store_shell_params(&mut invocation.payload, decoded);
                Self::settle(invocation, tags, mutating, blocked)
            },
            (DispatchPhase::AwaitGate, DispatchEvent::GateReady) => (
                ToolDispatch { invocation, tags, phase: DispatchPhase::AwaitTool { mutating: true } },
                DispatchAction::RunTool,
            ),
            (
                DispatchPhase::AwaitTool { mutating },
                DispatchEvent::ToolFinished { run, millis },
            ) => {
                let success = match &run {
                    ToolRun::Completed { success, .. } => *success,
                    ToolRun::Failed { .. } => false,
                };
                (
                    ToolDispatch {
                        invocation,
                        tags,
                        phase: DispatchPhase::AwaitReadMetric { mutating, run, millis },
                    },
                    DispatchAction::EmitReadMetric { success },
                )
            },
            (
                DispatchPhase::AwaitReadMetric { mutating, run, millis },
                DispatchEvent::ReadMetricEmitted,
            ) => (
                ToolDispatch {
                    invocation,
                    tags,
                    phase: DispatchPhase::AwaitPostTranscript { mutating, run, millis },
                },
                DispatchAction::ReadTranscriptPath,
            ),
            (
                DispatchPhase::AwaitPostTranscript { mutating, run, millis },
                DispatchEvent::TranscriptPath(path),
            ) => {
                let payload = match &run {
                    ToolRun::Completed { preview, success, .. } => if *success {
                        let response = tool_response(
                            true,
                            true,
                            millis,
                            mutating,
                            preview.as_str(),
                        );
                        post_tool_use_payload(&invocation, path, response)
                    } else {
                        post_tool_use_failure_payload(&invocation, path, preview.clone())
                    },
                    ToolRun::Failed { text, .. } => post_tool_use_failure_payload(
                        &invocation,
                        path,
                        text.clone(),
                    ),
                };
                (
                    ToolDispatch { invocation, tags, phase: DispatchPhase::AwaitPostHooks { run } },
                    DispatchAction::DispatchHooks(payload),
                )
            },
            (DispatchPhase::AwaitPostHooks { run }, DispatchEvent::HookOutcomes(outcomes)) => {
                let verdict = post_tool_use_verdict(outcomes);
                let event_name = match &run {
                    ToolRun::Completed { success: true, .. } => "post_tool_use",
                    _ => "post_tool_use_failure",
                };
                let blocked = hook_block_error(
                    event_name,
                    verdict.blocked,
                    invocation.tool_name.as_str(),
                );
                (
                    ToolDispatch {
                        invocation,
                        tags,
                        phase: DispatchPhase::AwaitPostContext { run, blocked },
                    },
                    DispatchAction::RecordHookContext(verdict.additional_context),
                )
            },
            (
                DispatchPhase::AwaitPostContext { run, blocked },
                DispatchEvent::ContextRecorded,
            ) => {
                let result = match blocked {
                    Some(error) => Err(error),
                    None => match run {
                        ToolRun::Completed { output: Some(output), .. } => Ok(output),
                        ToolRun::Completed { output: None, .. } => Err(
                            FunctionCallError::Fatal("tool produced no output".to_string()),
                        ),
                        ToolRun::Failed { error, .. } => Err(error),
                    },
                };
                (
                    ToolDispatch { invocation, tags, phase: DispatchPhase::Finished },
                    DispatchAction::Finish(result),
                )
            },
            _ => unreached(),
        }
    }
}

impl<H: ToolHandler> ToolRegistry<H> {
    /// Begins a call of a tool. A tool without a handler, or whose handler does not take the
    /// payload, is refused.
    pub fn dispatch<O>(&self, invocation: ToolInvocation, server_origin: Option<String>) -> (begun: (
        Option<Arc<H>>,
        Result<(ToolDispatch<O>, DispatchAction<O>), RejectedCall>,
    ))
        ensures
            begun.0 == found_handler(self@, invocation@.tool_name),
            match begun.0 {
                None => begins_as(invocation@, opt_text(server_origin), None, begun.1),
                Some(handler) => exists|takes: bool| #[trigger]
                    call_ensures(H::matches_kind, (&*handler, &invocation.payload), takes)
                        && begins_as(invocation@, opt_text(server_origin), Some(takes), begun.1),
            },
    {
        match self.handler(invocation.tool_name.as_str()) {
            None => (None, ToolDispatch::begin(invocation, server_origin, None)),
            Some(handler) => {
                let takes = handler.matches_kind(&invocation.payload);
                let begun = ToolDispatch::begin(invocation, server_origin, Some(takes));
                (Some(handler), begun)
            },
        }
    }
}

/// Whether each of the events answers what the call waits for when it comes.
pub open spec fn admissible<O>(call: DispatchModel<O>, events: Seq<EventModel<O>>) -> bool
    decreases events.len(),
{
    events.len() > 0 ==> {
        &&& awaited(call.phase, events.first())
        &&& admissible(next(call, events.first()).0, events.drop_first())
    }
}

/// Where events lead a call.
pub open spec fn after<O>(call: DispatchModel<O>, events: Seq<EventModel<O>>) -> DispatchModel<O>
    decreases events.len(),
{
    if events.len() == 0 {
        call
    } else {
        after(next(call, events.first()).0, events.drop_first())
    }
}

/// What is done on the way, in order.
pub open spec fn actions<O>(call: DispatchModel<O>, events: Seq<EventModel<O>>) -> Seq<
    ActionModel<O>,
>
    decreases events.len(),
{
    if events.len() == 0 {
        Seq::empty()
    } else {
        seq![next(call, events.first()).1] + actions(
            next(call, events.first()).0,
            events.drop_first(),
        )
    }
}

/// The most events that a call at a phase can still take.
pub open spec fn steps_left<O>(phase: PhaseModel<O>) -> nat {
    match phase {
        PhaseModel::AwaitMutating => 11,
        PhaseModel::AwaitPreTranscript { .. } => 10,
        PhaseModel::AwaitPreHooks { .. } => 9,
        PhaseModel::AwaitPreContext { .. } => 8,
        PhaseModel::AwaitShellParams { .. } => 7,
        PhaseModel::AwaitGate => 6,
        PhaseModel::AwaitTool { .. } => 5,
        PhaseModel::AwaitReadMetric { .. } => 4,
        PhaseModel::AwaitPostTranscript { .. } => 3,
        PhaseModel::AwaitPostHooks { .. } => 2,
        PhaseModel::AwaitPostContext { .. } => 1,
        PhaseModel::Finished => 0,
    }
}

/// Every call ends: it takes no more events than `steps_left` says, and until it has ended
/// there is an event that it takes.
pub proof fn law_every_call_ends<O>(call: DispatchModel<O>, events: Seq<EventModel<O>>)
    requires
        admissible(call, events),
    ensures
        events.len() <= steps_left(call.phase),
        !(call.phase is Finished) ==> exists|event: EventModel<O>| #[trigger]
            awaited(call.phase, event),
    decreases events.len(),
{
    if events.len() > 0 {
        law_every_call_ends(next(call, events.first()).0, events.drop_first());
    } else if !(call.phase is Finished) {
        let event = match call.phase {
            PhaseModel::AwaitMutating => EventModel::Mutating(false),
            PhaseModel::AwaitPreTranscript { .. } => EventModel::TranscriptPath(None),
            PhaseModel::AwaitPreHooks { .. } => EventModel::HookOutcomes(Seq::empty()),
            PhaseModel::AwaitPreContext { .. } => EventModel::ContextRecorded,
            PhaseModel::AwaitShellParams { .. } => EventModel::ShellParamsDecoded(
                Err(Seq::empty()),
            ),
            PhaseModel::AwaitGate => EventModel::GateReady,
            PhaseModel::AwaitTool { .. } => EventModel::ToolFinished {
                run: RunModel::Completed { output: None, preview: Seq::empty(), success: false },
                millis: 0,
            },
            PhaseModel::AwaitReadMetric { .. } => EventModel::ReadMetricEmitted,
            PhaseModel::AwaitPostTranscript { .. } => EventModel::TranscriptPath(None),
            PhaseModel::AwaitPostHooks { .. } => EventModel::HookOutcomes(Seq::empty()),
            _ => EventModel::ContextRecorded,
        };
        assert(awaited(call.phase, event));
    }
}

/// A call ends with its result and in no other way: the step that ends it is the one that
/// gives the result, and it takes no event after that.
pub proof fn law_a_call_ends_with_its_result<O>(call: DispatchModel<O>, event: EventModel<O>)
    requires
        awaited(call.phase, event),
    ensures
        next(call, event).1 is Finish <==> next(call, event).0.phase is Finished,
        next(call, event).1 is Finish ==> forall|later: EventModel<O>| !(#[trigger] awaited(
            next(call, event).0.phase,
            later,
        )),
{
}

/// Whatever hooks do, a call stays a call of the same tool: nothing about it changes but the
/// input that it carries.
pub proof fn law_a_call_keeps_its_identity<O>(call: DispatchModel<O>, events: Seq<EventModel<O>>)
    requires
        well_formed(call),
        admissible(call, events),
    ensures
        well_formed(after(call, events)),
        after(call, events).tags == call.tags,
        same_target(call.invocation.payload, after(call, events).invocation.payload),
        after(call, events).invocation == (InvocationModel {
            payload: after(call, events).invocation.payload,
            ..call.invocation
        }),
    decreases events.len(),
{
    if events.len() > 0 {
        law_a_call_keeps_its_identity(next(call, events.first()).0, events.drop_first());
    }
}

/// Once the hooks before it have run, the input of a call is settled: neither the run nor the
/// hooks after it change it.
pub proof fn law_input_is_settled_before_the_run<O>(
    call: DispatchModel<O>,
    events: Seq<EventModel<O>>,
)
    requires
        admissible(call, events),
        steps_left(call.phase) <= steps_left(PhaseModel::<O>::AwaitGate),
    ensures
        after(call, events).invocation == call.invocation,
    decreases events.len(),
{
    if events.len() > 0 {
        law_input_is_settled_before_the_run(next(call, events.first()).0, events.drop_first());
    }
}

/// A call that is to end with an error before its tool has run.
spec fn doomed<O>(call: DispatchModel<O>, error: ErrorModel) -> bool {
    match call.phase {
        PhaseModel::AwaitPreContext { blocked, .. } => blocked == Some(error),
        PhaseModel::AwaitShellParams { blocked, .. } => blocked == Some(error),
        PhaseModel::Finished => true,
        _ => false,
    }
}

proof fn lemma_doomed_call_never_runs<O>(
    call: DispatchModel<O>,
    error: ErrorModel,
    events: Seq<EventModel<O>>,
)
    requires
        doomed(call, error),
        admissible(call, events),
    ensures
        doomed(after(call, events), error),
        forall|i: int|
            0 <= i < events.len() ==> match #[trigger] actions(call, events)[i] {
                ActionModel::DecodeShellParams(_) => true,
                ActionModel::Finish(result) => result == Err::<O, ErrorModel>(error),
                _ => false,
            },
        actions(call, events).len() == events.len(),
    decreases events.len(),
{
    if events.len() > 0 {
        let moved = next(call, events.first());
        lemma_doomed_call_never_runs(moved.0, error, events.drop_first());
        assert forall|i: int| 0 <= i < events.len() implies match #[trigger] actions(call, events)[i] {
            ActionModel::DecodeShellParams(_) => true,
            ActionModel::Finish(result) => result == Err::<O, ErrorModel>(error),
            _ => false,
        } by {
            if i > 0 {
                assert(actions(call, events)[i] == actions(moved.0, events.drop_first())[i - 1]);
            }
        }
    }
}

/// A call that a hook blocks before it runs never runs, nor does it wait for its turn: it ends
/// with an error for the model that names the hook, the tool and the reason.
pub proof fn law_a_blocked_call_never_runs<O>(
    call: DispatchModel<O>,
    outcomes: Seq<OutcomeModel>,
    events: Seq<EventModel<O>>,
)
    requires
        call.phase is AwaitPreHooks,
        blocking(outcomes) is Some,
        admissible(next(call, EventModel::HookOutcomes(outcomes)).0, events),
    ensures
        ({
            let begun = next(call, EventModel::HookOutcomes(outcomes)).0;
            let error = ErrorModel::RespondToModel(
                blocked_message(
                    "pre_tool_use"@,
                    blocking(outcomes)->0,
                    call.invocation.tool_name,
                ),
            );
            &&& forall|i: int|
                0 <= i < events.len() ==> match #[trigger] actions(begun, events)[i] {
                    ActionModel::DecodeShellParams(_) => true,
                    ActionModel::Finish(result) => result == Err::<O, ErrorModel>(error),
                    _ => false,
                }
            &&& actions(begun, events).len() == events.len()
        }),
{
    let begun = next(call, EventModel::HookOutcomes(outcomes)).0;
    let error = ErrorModel::RespondToModel(
        blocked_message("pre_tool_use"@, blocking(outcomes)->0, call.invocation.tool_name),
    );
    lemma_doomed_call_never_runs(begun, error, events);
}

/// Whether a call may change something, where its phase knows.
pub open spec fn known_mutating<O>(phase: PhaseModel<O>) -> Option<bool> {
    match phase {
        PhaseModel::AwaitPreTranscript { mutating } => Some(mutating),
        PhaseModel::AwaitPreHooks { mutating } => Some(mutating),
        PhaseModel::AwaitPreContext { mutating, .. } => Some(mutating),
        PhaseModel::AwaitShellParams { mutating, .. } => Some(mutating),
        PhaseModel::AwaitGate => Some(true),
        PhaseModel::AwaitTool { mutating } => Some(mutating),
        PhaseModel::AwaitReadMetric { mutating, .. } => Some(mutating),
        PhaseModel::AwaitPostTranscript { mutating, .. } => Some(mutating),
        _ => None,
    }
}

/// A call that may change something runs right after it has waited for its turn; any other
/// call runs without waiting. What the handler has answered before the hooks ran decides.
pub proof fn law_only_mutating_calls_wait_for_the_gate<O>(
    call: DispatchModel<O>,
    event: EventModel<O>,
)
    requires
        awaited(call.phase, event),
    ensures
        event matches EventModel::Mutating(mutating) ==> known_mutating(next(call, event).0.phase)
            == Some(mutating),
        known_mutating(call.phase) is Some && known_mutating(next(call, event).0.phase) is Some
            ==> known_mutating(next(call, event).0.phase) == known_mutating(call.phase),
        next(call, event).1 is WaitForGate <==> next(call, event).0.phase is AwaitGate,
        next(call, event).1 is RunTool ==> known_mutating(call.phase) == Some(
            call.phase is AwaitGate,
        ),
{
}

/// A call runs only once the hooks before it have answered, and the hooks after it see only a
/// call that has run.
pub proof fn law_hooks_run_on_both_sides_of_the_run<O>(call: DispatchModel<O>, event: EventModel<O>)
    requires
        awaited(call.phase, event),
    ensures
        next(call, event).0.phase is AwaitPreContext ==> call.phase is AwaitPreHooks && event
            is HookOutcomes,
        next(call, event).0.phase is AwaitShellParams ==> call.phase is AwaitPreContext,
        next(call, event).0.phase is AwaitGate ==> call.phase is AwaitPreContext
            || call.phase is AwaitShellParams,
        next(call, event).1 is RunTool <==> next(call, event).0.phase is AwaitTool,
        next(call, event).1 is RunTool ==> call.phase is AwaitPreContext
            || call.phase is AwaitShellParams || call.phase is AwaitGate,
        next(call, event).0.phase is AwaitReadMetric ==> call.phase is AwaitTool && event
            is ToolFinished,
        next(call, event).0.phase is AwaitPostTranscript ==> call.phase is AwaitReadMetric,
        next(call, event).0.phase is AwaitPostHooks ==> call.phase is AwaitPostTranscript,
{
}

/// A hook that fails stops nothing: a call goes on in the same way whatever errors its hooks
/// report.
pub proof fn law_failing_hooks_stop_no_call<O>(
    call: DispatchModel<O>,
    a: Seq<OutcomeModel>,
    b: Seq<OutcomeModel>,
)
    requires
        same_but_for_errors(a, b),
        call.phase is AwaitPreHooks || call.phase is AwaitPostHooks,
    ensures
        next(call, EventModel::HookOutcomes(a)) == next(call, EventModel::HookOutcomes(b)),
{
    law_hook_errors_stop_nothing(a, b);
}

/// An input that cannot be stored is ignored: the call goes on with the input that it had.
pub proof fn law_unusable_input_is_ignored<O>(
    call: DispatchModel<O>,
    updated: JsonTree,
    mutating: bool,
    blocked: Option<ErrorModel>,
    error: Seq<char>,
)
    ensures
        call.phase == (PhaseModel::<O>::AwaitShellParams { mutating, blocked }) ==> next(
            call,
            EventModel::ShellParamsDecoded(Err(error)),
        ) == settled(call, mutating, blocked),
        call.phase == (PhaseModel::<O>::AwaitPreContext {
            mutating,
            updated_input: Some(updated),
            blocked,
        }) && !(call.invocation.payload is LocalShell) && input_text(updated) is Err ==> next(
            call,
            EventModel::ContextRecorded,
        ) == settled(call, mutating, blocked),
{
}

/// The payload of a call once the hooks before it have run.
pub open spec fn rewritten(
    payload: PayloadModel,
    update: Option<JsonTree>,
    decoded: Result<ShellParamsModel, Seq<char>>,
) -> PayloadModel {
    match update {
        None => payload,
        Some(updated) => if payload is LocalShell {
            stored_params(payload, decoded).0
        } else {
            stored_text(payload, input_text(updated)).0
        },
    }
}

/// The events that lead a call from its beginning to its run, or to its end where it is
/// blocked. `decoded` comes where the hooks rewrite the input of a shell call.
pub open spec fn events_before_the_run<O>(
    payload: PayloadModel,
    mutating: bool,
    path: Option<Seq<char>>,
    outcomes: Seq<OutcomeModel>,
    decoded: Result<ShellParamsModel, Seq<char>>,
) -> Seq<EventModel<O>> {
    let asked = seq![
        EventModel::Mutating(mutating),
        EventModel::TranscriptPath(path),
        EventModel::HookOutcomes(outcomes),
        EventModel::ContextRecorded,
    ];
    if payload is LocalShell && last_update(until_block(outcomes)) is Some {
        asked.push(EventModel::ShellParamsDecoded(decoded))
    } else {
        asked
    }
}

/// How a call gets to its run: the hooks see the input that came in, the context that they
/// add is recorded, and the call goes on with the input that they ask for, where it can be
/// stored, unless one of them blocks it.
pub proof fn law_course_before_the_run<O>(
    call: DispatchModel<O>,
    mutating: bool,
    path: Option<Seq<char>>,
    outcomes: Seq<OutcomeModel>,
    decoded: Result<ShellParamsModel, Seq<char>>,
)
    requires
        call.phase is AwaitMutating,
    ensures
        ({
            let events = events_before_the_run::<O>(
                call.invocation.payload,
                mutating,
                path,
                outcomes,
                decoded,
            );
            let heard = until_block(outcomes);
            let payload = rewritten(call.invocation.payload, last_update(heard), decoded);
            let blocked = block_error(
                "pre_tool_use"@,
                blocking(outcomes),
                call.invocation.tool_name,
            );
            let settled_call = settled(with_payload(call, payload), mutating, blocked);
            let shown = hook_payload_model(
                call.invocation,
                path,
                pre_tool_use_event(call.invocation),
            );
            &&& admissible(call, events)
            &&& after(call, events) == settled_call.0
            &&& actions(call, events).len() == events.len()
            &&& actions(call, events)[1] == ActionModel::<O>::DispatchHooks(shown)
            &&& actions(call, events)[2] == ActionModel::<O>::RecordHookContext(
                added_context(heard),
            )
            &&& actions(call, events).last() == settled_call.1
        }),
{
    let events = events_before_the_run::<O>(
        call.invocation.payload,
        mutating,
        path,
        outcomes,
        decoded,
    );
    let first = next(call, events[0]).0;
    let second = next(first, events[1]).0;
    let third = next(second, events[2]).0;
    let fourth = next(third, events[3]).0;
    let rest = events.drop_first();
    let tail = rest.drop_first().drop_first();
    reveal_with_fuel(admissible, 6);
    reveal_with_fuel(after, 6);
    reveal_with_fuel(actions, 6);
    assert(rest.first() == events[1]);
    assert(rest.drop_first().first() == events[2]);
    assert(tail.first() == events[3]);
    if events.len() == 5 {
        assert(tail.drop_first().first() == events[4]);
        assert(tail.drop_first().drop_first() =~= Seq::<EventModel<O>>::empty());
    } else {
        assert(tail.drop_first() =~= Seq::<EventModel<O>>::empty());
    }
}

/// How a call gets from its run to its end: hooks see the run as what it was, a success or a
/// failure, with the input that it ran with, and the call ends with what the run gave unless
/// one of them blocks it.
pub proof fn law_course_after_the_run<O>(
    call: DispatchModel<O>,
    mutating: bool,
    run: RunModel<O>,
    millis: u128,
    path: Option<Seq<char>>,
    outcomes: Seq<OutcomeModel>,
)
    requires
        call.phase == (PhaseModel::<O>::AwaitTool { mutating }),
    ensures
        ({
            let events = seq![
                EventModel::ToolFinished { run, millis },
                EventModel::ReadMetricEmitted,
                EventModel::TranscriptPath(path),
                EventModel::HookOutcomes(outcomes),
                EventModel::ContextRecorded,
            ];
            let blocked = block_error(
                post_event_name(run),
                blocking(outcomes),
                call.invocation.tool_name,
            );
            let shown = hook_payload_model(
                call.invocation,
                path,
                if run_success(run) {
                    post_tool_use_event(
                        call.invocation,
                        tool_response_tree(true, true, millis, mutating, run_text(run)),
                    )
                } else {
                    post_tool_use_failure_event(call.invocation, run_text(run))
                },
            );
            &&& admissible(call, events)
            &&& after(call, events) == (DispatchModel { phase: PhaseModel::<O>::Finished, ..call })
            &&& actions(call, events) == seq![
                ActionModel::EmitReadMetric { success: run_success(run) },
                ActionModel::ReadTranscriptPath,
                ActionModel::DispatchHooks(shown),
                ActionModel::RecordHookContext(added_context(outcomes)),
                ActionModel::Finish(
                    match blocked {
                        Some(error) => Err(error),
                        None => run_result(run),
                    },
                ),
            ]
        }),
{
    let events: Seq<EventModel<O>> = seq![
        EventModel::ToolFinished { run, millis },
        EventModel::ReadMetricEmitted,
        EventModel::TranscriptPath(path),
        EventModel::HookOutcomes(outcomes),
        EventModel::ContextRecorded,
    ];
    reveal_with_fuel(admissible, 6);
    reveal_with_fuel(after, 6);
    reveal_with_fuel(actions, 6);
    let rest = events.drop_first();
    let tail = rest.drop_first().drop_first();
    assert(rest.first() == events[1]);
    assert(rest.drop_first().first() == events[2]);
    assert(tail.first() == events[3]);
    assert(tail.drop_first().first() == events[4]);
    assert(tail.drop_first().drop_first() =~= Seq::<EventModel<O>>::empty());
}

/// Each phase waits for the answer to the action that led to it, whatever that answer holds,
/// and a call that has ended waits for nothing.
pub proof fn law_what_a_call_waits_for<O>(phase: PhaseModel<O>, event: EventModel<O>)
    ensures
        phase is AwaitMutating ==> awaited(phase, event) == (event is Mutating),
        phase is AwaitPreTranscript || phase is AwaitPostTranscript ==> awaited(phase, event) == (
        event is TranscriptPath),
        phase is AwaitPreHooks || phase is AwaitPostHooks ==> awaited(phase, event) == (
        event is HookOutcomes),
        phase is AwaitPreContext || phase is AwaitPostContext ==> awaited(phase, event) == (
        event is ContextRecorded),
        phase is AwaitShellParams ==> awaited(phase, event) == (event is ShellParamsDecoded),
        phase is AwaitGate ==> awaited(phase, event) == (event is GateReady),
        phase is AwaitTool ==> awaited(phase, event) == (event is ToolFinished),
        phase is AwaitReadMetric ==> awaited(phase, event) == (event is ReadMetricEmitted),
        phase is Finished ==> !awaited(phase, event),
{
}

/// How a call begins: without a handler it is refused with a message for the model, with a
/// handler that does not take its payload it fails for good, and else it is asked first
/// whether it may change anything. It is the call that came in, in every case.
pub proof fn law_how_a_call_begins<O>(
    invocation: InvocationModel,
    server_origin: Option<Seq<char>>,
    handler_takes: Option<bool>,
    begun: Result<(ToolDispatch<O>, DispatchAction<O>), RejectedCall>,
)
    requires
        begins_as(invocation, server_origin, handler_takes, begun),
    ensures
        handler_takes is None ==> {
            let message = if invocation.payload is Custom {
                "unsupported custom tool call: "@ + invocation.tool_name
            } else {
                "unsupported call: "@ + invocation.tool_name
            };
            &&& begun is Err
            &&& begun->Err_0.error@ == ErrorModel::RespondToModel(message)
            &&& begun->Err_0.message@ == message
        },
        handler_takes == Some(false) ==> {
            let message = "tool "@ + invocation.tool_name + " invoked with incompatible payload"@;
            &&& begun is Err
            &&& begun->Err_0.error@ == ErrorModel::Fatal(message)
            &&& begun->Err_0.message@ == message
        },
        handler_takes == Some(true) ==> {
            &&& begun is Ok
            &&& begun->Ok_0.0@.phase is AwaitMutating
            &&& begun->Ok_0.1@ is AskMutating
        },
        begun matches Ok(b) ==> b.0@.invocation == invocation,
        begun matches Err(rejected) ==> rejected.invocation@ == invocation,
        ({
            let tags = match begun {
                Ok(b) => b.0@.tags,
                Err(rejected) => rejected.tags@,
            };
            &&& tags.sandbox == invocation.sandbox_tag
            &&& tags.sandbox_policy == policy_tag(invocation.sandbox_policy)
            &&& invocation.payload matches PayloadModel::Mcp { server, .. } ==> tags.mcp_server
                == Some(server) && tags.mcp_server_origin == server_origin
            &&& !(invocation.payload is Mcp) ==> tags.mcp_server is None
                && tags.mcp_server_origin is None
        }),
{
}

/// What the hooks before a call are told, and what is recorded of their answers: they see the
/// call as it came in, and of those that are heard all context is recorded.
pub proof fn law_hooks_see_the_call_before_it_runs<O>(
    call: DispatchModel<O>,
    mutating: bool,
    path: Option<Seq<char>>,
    outcomes: Seq<OutcomeModel>,
)
    requires
        call.phase is AwaitMutating,
    ensures
        ({
            let asked = next(call, EventModel::Mutating(mutating));
            let told = next(asked.0, EventModel::TranscriptPath(path));
            let heard = next(told.0, EventModel::HookOutcomes(outcomes));
            &&& asked.1 is ReadTranscriptPath
            &&& told.1 == ActionModel::<O>::DispatchHooks(
                HookPayloadModel {
                    session_id: call.invocation.session_id,
                    transcript_path: path,
                    cwd: call.invocation.cwd,
                    permission_mode: approval_tag(call.invocation.approval_policy),
                    hook_event: HookEventModel::PreToolUse {
                        tool_name: call.invocation.tool_name,
                        tool_input: payload_input(call.invocation.payload),
                        tool_use_id: call.invocation.call_id,
                    },
                },
            )
            &&& heard.1 == ActionModel::<O>::RecordHookContext(
                added_context(until_block(outcomes)),
            )
            &&& heard.0.invocation == call.invocation
            &&& heard.0.tags == call.tags
            &&& heard.0.phase is AwaitPreContext
        }),
{
}

/// Where a call that came through its hooks stands: the input that the last of those heard
/// asks for takes the place of the old one, where it can be stored; a block ends the call with
/// its reason; else the tool runs, after its turn has come where it may change something.
pub proof fn law_what_hooks_make_of_a_call<O>(
    call: DispatchModel<O>,
    mutating: bool,
    path: Option<Seq<char>>,
    outcomes: Seq<OutcomeModel>,
    decoded: Result<ShellParamsModel, Seq<char>>,
)
    requires
        call.phase is AwaitMutating,
    ensures
        ({
            let asked = next(call, EventModel::Mutating(mutating)).0;
            let told = next(asked, EventModel::TranscriptPath(path)).0;
            let heard = next(told, EventModel::HookOutcomes(outcomes)).0;
            let recorded = next(heard, EventModel::ContextRecorded);
            let update = last_update(until_block(outcomes));
            let old = call.invocation.payload;
            let ready = if old is LocalShell && update is Some {
                next(recorded.0, EventModel::ShellParamsDecoded(decoded))
            } else {
                recorded
            };
            let new = ready.0.invocation.payload;
            &&& old is LocalShell && update is Some ==> recorded.1
                == ActionModel::<O>::DecodeShellParams(update->0)
            &&& update is None ==> new == old
            &&& update is Some && old is LocalShell ==> match decoded {
                Ok(params) => new == (PayloadModel::LocalShell { params }),
                Err(_) => new == old,
            }
            &&& update is Some && !(old is LocalShell) ==> match input_text(update->0) {
                Err(_) => new == old,
                Ok(text) => match old {
                    PayloadModel::Function { .. } => new == (PayloadModel::Function {
                        arguments: text,
                    }),
                    PayloadModel::Custom { .. } => new == (PayloadModel::Custom { input: text }),
                    PayloadModel::Mcp { server, tool, .. } => new == (PayloadModel::Mcp {
                        server,
                        tool,
                        raw_arguments: text,
                    }),
                    PayloadModel::LocalShell { .. } => true,
                },
            }
            &&& ready.0.invocation == (InvocationModel { payload: new, ..call.invocation })
            &&& ready.0.tags == call.tags
            &&& blocking(outcomes) matches Some(block) ==> ready.1 == ActionModel::<O>::Finish(
                Err(
                    ErrorModel::RespondToModel(
                        "pre_tool_use"@ + " hook '"@ + block.hook_name + "' blocked tool '"@
                            + call.invocation.tool_name + "': "@ + block.reason,
                    ),
                ),
            )
            &&& blocking(outcomes) is None && !mutating ==> ready.1 is RunTool && ready.0.phase == (
            PhaseModel::<O>::AwaitTool { mutating: false })
            &&& blocking(outcomes) is None && mutating ==> {
                let let_in = next(ready.0, EventModel::GateReady);
                &&& ready.1 is WaitForGate
                &&& let_in.1 is RunTool
                &&& let_in.0 == (DispatchModel {
                    phase: PhaseModel::<O>::AwaitTool { mutating: true },
                    ..ready.0
                })
            }
        }),
{
}

/// What the hooks after a run are told: a run that completed with success is shown as such,
/// with what it gave; any other is shown as a failure, with its text. All context that the
/// hooks add is recorded.
pub proof fn law_hooks_see_what_came_of_the_run<O>(
    call: DispatchModel<O>,
    mutating: bool,
    run: RunModel<O>,
    millis: u128,
    path: Option<Seq<char>>,
    outcomes: Seq<OutcomeModel>,
)
    requires
        call.phase == (PhaseModel::<O>::AwaitTool { mutating }),
    ensures
        ({
            let done = next(call, EventModel::ToolFinished { run, millis });
            let counted = next(done.0, EventModel::ReadMetricEmitted);
            let shown = next(counted.0, EventModel::TranscriptPath(path));
            let heard = next(shown.0, EventModel::HookOutcomes(outcomes));
            let invocation = call.invocation;
            let event = match run {
                RunModel::Completed { preview, success: true, .. } => HookEventModel::PostToolUse {
                    tool_name: invocation.tool_name,
                    tool_input: payload_input(invocation.payload),
                    tool_response: tool_response_tree(true, true, millis, mutating, preview),
                    tool_use_id: invocation.call_id,
                },
                RunModel::Completed { preview, success: false, .. } =>
                    HookEventModel::PostToolUseFailure {
                    tool_name: invocation.tool_name,
                    tool_input: payload_input(invocation.payload),
                    tool_use_id: invocation.call_id,
                    error: preview,
                    is_interrupt: None,
                },
                RunModel::Failed { text, .. } => HookEventModel::PostToolUseFailure {
                    tool_name: invocation.tool_name,
                    tool_input: payload_input(invocation.payload),
                    tool_use_id: invocation.call_id,
                    error: text,
                    is_interrupt: None,
                },
            };
            &&& done.1 == (ActionModel::<O>::EmitReadMetric {
                success: match run {
                    RunModel::Completed { success, .. } => success,
                    RunModel::Failed { .. } => false,
                },
            })
            &&& counted.1 is ReadTranscriptPath
            &&& shown.1 == ActionModel::<O>::DispatchHooks(
                HookPayloadModel {
                    session_id: invocation.session_id,
                    transcript_path: path,
                    cwd: invocation.cwd,
                    permission_mode: approval_tag(invocation.approval_policy),
                    hook_event: event,
                },
            )
            &&& heard.1 == ActionModel::<O>::RecordHookContext(added_context(outcomes))
            &&& heard.0.invocation == invocation
            &&& heard.0.tags == call.tags
        }),
{
}

/// What a call ends with: unless a hook after the run blocks it, the very error that its
/// handler returned, or the very output that it gave, whether or not that counts as a success;
/// and where a hook blocks it, the reason of the first that does.
pub proof fn law_what_a_call_ends_with<O>(
    call: DispatchModel<O>,
    mutating: bool,
    run: RunModel<O>,
    millis: u128,
    path: Option<Seq<char>>,
    outcomes: Seq<OutcomeModel>,
)
    requires
        call.phase == (PhaseModel::<O>::AwaitTool { mutating }),
    ensures
        ({
            let done = next(call, EventModel::ToolFinished { run, millis }).0;
            let counted = next(done, EventModel::ReadMetricEmitted).0;
            let shown = next(counted, EventModel::TranscriptPath(path)).0;
            let heard = next(shown, EventModel::HookOutcomes(outcomes)).0;
            let ended = next(heard, EventModel::ContextRecorded);
            let unblocked = forall|i: int|
                0 <= i < outcomes.len() ==> (#[trigger] outcomes[i]).block_reason is None;
            &&& ended.0.phase is Finished
            &&& ended.0.invocation == call.invocation
            &&& unblocked ==> match run {
                RunModel::Failed { error, .. } => ended.1 == ActionModel::<O>::Finish(Err(error)),
                RunModel::Completed { output: Some(output), .. } => ended.1
                    == ActionModel::<O>::Finish(Ok(output)),
                RunModel::Completed { output: None, .. } => ended.1 == ActionModel::<O>::Finish(
                    Err(ErrorModel::Fatal("tool produced no output"@)),
                ),
            }
            &&& blocking(outcomes) matches Some(block) ==> ended.1 == ActionModel::<O>::Finish(
                Err(
                    ErrorModel::RespondToModel(
                        (match run {
                            RunModel::Completed { success: true, .. } => "post_tool_use"@,
                            _ => "post_tool_use_failure"@,
                        }) + " hook '"@ + block.hook_name + "' blocked tool '"@
                            + call.invocation.tool_name + "': "@ + block.reason,
                    ),
                ),
            )
        }),
{
    law_first_block_counts(outcomes);
}

/// A run is of the kind that its model is of, and holds what its model holds.
pub proof fn law_what_a_run_holds<O>(run: ToolRun<O>)
    ensures
        run@ matches RunModel::Completed { output, preview, success } ==> (run
            matches ToolRun::Completed { output: held, preview: text, success: succeeded } && held
            == output && text@ == preview && succeeded == success),
        run@ matches RunModel::Failed { error, text } ==> (run matches ToolRun::Failed {
            error: held,
            text: shown,
        } && held@ == error && shown@ == text),
{
}

/// A result is a failure exactly where its model is, and holds what its model holds.
pub proof fn law_what_a_result_holds<O>(result: Result<O, FunctionCallError>)
    ensures
        result is Ok <==> result_model(result) is Ok,
        result is Ok ==> result_model(result)->Ok_0 == result->Ok_0,
        result is Err ==> result_model(result)->Err_0 == result->Err_0@,
{
}

/// An action is the one that its model is, and holds what its model holds.
pub proof fn law_what_an_action_holds<O>(action: DispatchAction<O>)
    ensures
        action@ is AskMutating ==> action is AskMutating,
        action@ is ReadTranscriptPath ==> action is ReadTranscriptPath,
        action@ matches ActionModel::DispatchHooks(payload) ==> (action
            matches DispatchAction::DispatchHooks(told) && told@ == payload),
        action@ matches ActionModel::RecordHookContext(context) ==> (action
            matches DispatchAction::RecordHookContext(added) && texts(added@) == context),
        action@ matches ActionModel::DecodeShellParams(tree) ==> (action
            matches DispatchAction::DecodeShellParams(json) && json.tree() == tree),
        action@ is WaitForGate ==> action is WaitForGate,
        action@ is RunTool ==> action is RunTool,
        action@ matches ActionModel::EmitReadMetric { success } ==> (action
            matches DispatchAction::EmitReadMetric { success: succeeded } && succeeded == success),
        action@ matches ActionModel::Finish(result) ==> (action matches DispatchAction::Finish(held)
            && result_model(held) == result),
{
}

/// An event is modelled as the one that it is, with what it holds.
pub proof fn law_what_an_event_holds<O>(event: DispatchEvent<O>)
    ensures
        event matches DispatchEvent::Mutating(mutating) ==> event@ == EventModel::<O>::Mutating(
            mutating,
        ),
        event matches DispatchEvent::TranscriptPath(path) ==> event@
            == EventModel::<O>::TranscriptPath(opt_text(path)),
        event matches DispatchEvent::HookOutcomes(outcomes) ==> event@
            == EventModel::<O>::HookOutcomes(outcome_models(outcomes@)),
        event is ContextRecorded ==> event@ is ContextRecorded,
        event matches DispatchEvent::ShellParamsDecoded(decoded) ==> event@
            == EventModel::<O>::ShellParamsDecoded(params_result(decoded)),
        event is GateReady ==> event@ is GateReady,
        event matches DispatchEvent::ToolFinished { run, millis } ==> event@
            == (EventModel::ToolFinished { run: run@, millis }),
        event is ReadMetricEmitted ==> event@ is ReadMetricEmitted,
{
}

/// Metrics are told what the model of their tags says.
pub proof fn law_what_tags_hold(tags: CallTags)
    ensures
        tags@.sandbox == tags.sandbox@,
        tags@.sandbox_policy == tags.sandbox_policy@,
        tags@.mcp_server == opt_text(tags.mcp_server),
        tags@.mcp_server_origin == opt_text(tags.mcp_server_origin),
{
}

} // verus!
