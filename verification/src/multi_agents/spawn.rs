//! The tool `spawn_agent`: whether an agent may be spawned, what is done on the way, and what
//! is undone where it fails.

use vstd::pervasive::arbitrary;
use vstd::pervasive::unreached;
use vstd::prelude::*;
use vstd::string::*;

use crate::context::ErrorModel;
use crate::context::FunctionCallError;
use crate::dispatch::result_model;
use crate::json::fields;
use crate::json::named_trees_of;
use crate::json::rendered_json;
use crate::json::Json;
use crate::json::JsonTree;
use crate::multi_agents::opt_status;
use crate::multi_agents::output_result;
use crate::multi_agents::AgentStatus;
use crate::multi_agents::OutputModel;
use crate::multi_agents::StatusModel;
use crate::multi_agents::TextOutput;
use crate::text::join;
use crate::text::joined;
use crate::text::opt_text;
use crate::text::texts;
use crate::text::trim;
use crate::text::trimmed;
use crate::tool_input::object;
use crate::tool_input::stored_result;
use crate::tool_input::text_result;

verus! {

/// What a call of `spawn_agent` asks for.
#[derive(Debug)]
pub struct SpawnRequest {
    pub call_id: String,
    pub sender_thread_id: String,
    pub agent_type: Option<String>,
    pub fork_context: bool,
    pub worktree: bool,
    pub background: bool,
}

/// What is known about a call of `spawn_agent` before anything is done: the team that the
/// caller is a member of, the model that is asked for, a preview of the input, and how deep
/// the new agent would be.
#[derive(Debug)]
pub struct SpawnChecks {
    pub team: Result<Option<String>, FunctionCallError>,
    pub model_provider: Result<Option<String>, FunctionCallError>,
    pub model: Result<Option<String>, FunctionCallError>,
    pub prompt: Result<String, FunctionCallError>,
    pub child_depth: i32,
    pub depth_exceeded: bool,
}

/// A call that has been admitted.
#[derive(Debug)]
pub struct SpawnCall {
    pub call_id: String,
    pub sender_thread_id: String,
    pub prompt: String,
    pub role: Option<String>,
    pub model_provider: Option<String>,
    pub model: Option<String>,
    pub depth: i32,
    pub fork_context: bool,
    pub use_worktree: bool,
    pub background: bool,
}

/// The model of `SpawnRequest`.
pub ghost struct RequestModel {
    pub call_id: Seq<char>,
    pub sender_thread_id: Seq<char>,
    pub agent_type: Option<Seq<char>>,
    pub fork_context: bool,
    pub worktree: bool,
    pub background: bool,
}

/// The model of `SpawnChecks`.
pub ghost struct ChecksModel {
    pub team: Result<Option<Seq<char>>, ErrorModel>,
    pub model_provider: Result<Option<Seq<char>>, ErrorModel>,
    pub model: Result<Option<Seq<char>>, ErrorModel>,
    pub prompt: Result<Seq<char>, ErrorModel>,
    pub child_depth: i32,
    pub depth_exceeded: bool,
}

/// The model of `SpawnCall`.
pub ghost struct CallModel {
    pub call_id: Seq<char>,
    pub sender_thread_id: Seq<char>,
    pub prompt: Seq<char>,
    pub role: Option<Seq<char>>,
    pub model_provider: Option<Seq<char>>,
    pub model: Option<Seq<char>>,
    pub depth: i32,
    pub fork_context: bool,
    pub use_worktree: bool,
    pub background: bool,
}

impl View for SpawnRequest {
    type V = RequestModel;

    open spec fn view(&self) -> RequestModel {
        RequestModel {
            call_id: self.call_id@,
            sender_thread_id: self.sender_thread_id@,
            agent_type: opt_text(self.agent_type),
            fork_context: self.fork_context,
            worktree: self.worktree,
            background: self.background,
        }
    }
}

/// What the result of a check on an optional text holds.
pub open spec fn opt_text_result(result: Result<Option<String>, FunctionCallError>) -> Result<
    Option<Seq<char>>,
    ErrorModel,
> {
    match result {
        Ok(text) => Ok(opt_text(text)),
        Err(error) => Err(error@),
    }
}

/// What the result of a check on a text holds.
pub open spec fn checked_text(result: Result<String, FunctionCallError>) -> Result<
    Seq<char>,
    ErrorModel,
> {
    match result {
        Ok(text) => Ok(text@),
        Err(error) => Err(error@),
    }
}

impl View for SpawnChecks {
    type V = ChecksModel;

    open spec fn view(&self) -> ChecksModel {
        ChecksModel {
            team: opt_text_result(self.team),
            model_provider: opt_text_result(self.model_provider),
            model: opt_text_result(self.model),
            prompt: checked_text(self.prompt),
            child_depth: self.child_depth,
            depth_exceeded: self.depth_exceeded,
        }
    }
}

impl View for SpawnCall {
    type V = CallModel;

    open spec fn view(&self) -> CallModel {
        CallModel {
            call_id: self.call_id@,
            sender_thread_id: self.sender_thread_id@,
            prompt: self.prompt@,
            role: opt_text(self.role),
            model_provider: opt_text(self.model_provider),
            model: opt_text(self.model),
            depth: self.depth,
            fork_context: self.fork_context,
            use_worktree: self.use_worktree,
            background: self.background,
        }
    }
}

/// The role of a new agent: what the call names, without white space around it, unless that
/// leaves nothing.
pub open spec fn role_of(agent_type: Option<Seq<char>>) -> Option<Seq<char>> {
    match agent_type {
        Some(name) => if trimmed(name).len() > 0 {
            Some(trimmed(name))
        } else {
            None
        },
        None => None,
    }
}

/// The message for a caller that is itself a member of a team.
pub open spec fn teammate_message(team_id: Seq<char>) -> Seq<char> {
    "spawn_agent is disabled for agent team teammates (team `"@ + team_id
        + "`). Ask the team lead to spawn agents."@
}

/// Whether a call is admitted, and as what. Of several reasons to refuse it, the first in this
/// order counts: the team, the model, the input, the depth.
pub open spec fn admitted(request: RequestModel, checks: ChecksModel) -> Result<
    CallModel,
    ErrorModel,
> {
    match (checks.team, checks.model_provider, checks.model, checks.prompt) {
        (Err(error), _, _, _) => Err(error),
        (Ok(Some(team_id)), _, _, _) => Err(ErrorModel::RespondToModel(teammate_message(team_id))),
        (Ok(None), Err(error), _, _) => Err(error),
        (Ok(None), Ok(_), Err(error), _) => Err(error),
        (Ok(None), Ok(_), Ok(_), Err(error)) => Err(error),
        (Ok(None), Ok(model_provider), Ok(model), Ok(prompt)) => if checks.depth_exceeded {
            Err(
                ErrorModel::RespondToModel(
                    "Agent depth limit reached. Solve the task yourself."@,
                ),
            )
        } else {
            Ok(
                CallModel {
                    call_id: request.call_id,
                    sender_thread_id: request.sender_thread_id,
                    prompt,
                    role: role_of(request.agent_type),
                    model_provider,
                    model,
                    depth: checks.child_depth,
                    fork_context: request.fork_context,
                    use_worktree: request.worktree,
                    background: request.background,
                },
            )
        },
    }
}

/// The thread that a new agent is to run in.
#[derive(Debug, PartialEq, Eq)]
pub struct ThreadSpec {
    /// The directory that it works in, where that is not the one of its parent.
    pub cwd: Option<String>,
    pub parent_thread_id: String,
    pub depth: i32,
    pub role: Option<String>,
}

/// How a call of `spawn_agent` ended. Where there is no agent, `status` is `None`, which stands
/// for the status that tells that an agent was not found.
#[derive(Debug, PartialEq, Eq)]
pub struct SpawnEnd {
    pub call_id: String,
    pub sender_thread_id: String,
    pub new_thread_id: Option<String>,
    pub new_agent_nickname: Option<String>,
    pub new_agent_role: Option<String>,
    pub prompt: String,
    pub status: Option<AgentStatus>,
}

/// Why a thread was not spawned.
#[derive(Debug, PartialEq, Eq)]
pub struct SpawnFailure {
    /// Whether there are too many agents already.
    pub limit_reached: bool,
    pub error: FunctionCallError,
}

/// What the caller is to do next.
#[derive(Debug, PartialEq, Eq)]
pub enum SpawnAction {
    /// Report that an agent is about to be spawned.
    SendBegin { call_id: String, sender_thread_id: String, prompt: String },
    /// Make the configuration of the new agent.
    BuildConfig { depth: i32 },
    /// Change the configuration as the role asks.
    ApplyRole { role: Option<String> },
    /// Change the model in the configuration.
    ApplyModelOverrides { model_provider: Option<String>, model: Option<String> },
    /// Change the configuration as the turn asks.
    ApplyRuntimeOverrides,
    /// Change the configuration as the depth asks.
    ApplySpawnOverrides { depth: i32 },
    /// Make a worktree for the new agent, and hold a lease on it.
    CreateWorktree,
    /// Spawn the thread, as a fork of the call with the given identifier if there is one.
    SpawnThread { thread: ThreadSpec, fork_parent_spawn_call_id: Option<String> },
    /// Make room by reaping agents that have finished.
    ReapFinishedAgents { slots: usize },
    /// Spawn the thread once more, as a fork of nothing.
    RespawnThread { thread: ThreadSpec },
    /// Run the hooks for the start of an agent.
    RunStartHooks { agent_id: String, agent_type: String },
    /// Give the agent a message before its first turn.
    InjectMessage { agent_id: String, message: String },
    /// Give the agent its input.
    SendInput { agent_id: String },
    /// Remove the worktree.
    RemoveWorktree { worktree_path: String },
    /// Shut the agent down.
    ShutdownAgent { agent_id: String },
    /// Hand the lease on the worktree to the agent.
    RegisterWorktree { agent_id: String, worktree_path: String },
    /// Clean up after the agent once it has finished.
    StartBackgroundCleanup { agent_id: String },
    /// Read the nickname and the role of the agent.
    ReadNames { agent_id: String },
    /// Read the status of the agent.
    ReadStatus { agent_id: String },
    /// Report how the call ended.
    SendEnd(SpawnEnd),
    /// The call has ended.
    Finish(Result<TextOutput, FunctionCallError>),
}

/// What came of the last action.
#[derive(Debug, PartialEq, Eq)]
pub enum SpawnEvent {
    /// The action was done, or failed in a way that changes nothing.
    Done,
    Attempted(Result<(), FunctionCallError>),
    RoleApplied(Result<(), String>),
    WorktreeCreated(Result<String, FunctionCallError>),
    ThreadSpawned(Result<String, SpawnFailure>),
    Reaped(usize),
    HookContext(Vec<String>),
    Names(Option<(Option<String>, Option<String>)>),
    Status(AgentStatus),
}

/// How far a call has come.
#[derive(Debug)]
pub enum SpawnPhase {
    AwaitBegin,
    AwaitConfig,
    AwaitRole,
    AwaitModelOverrides,
    AwaitRuntimeOverrides,
    AwaitSpawnOverrides,
    AwaitWorktree,
    AwaitThread,
    AwaitReaped { error: FunctionCallError },
    AwaitRespawn,
    AwaitHookContext { agent_id: String },
    AwaitInjected { agent_id: String },
    AwaitInput { agent_id: String },
    AwaitRegistered { agent_id: String },
    AwaitCleanup { agent_id: String },
    AwaitNames { agent_id: String },
    AwaitStatus { agent_id: String, nickname: Option<String>, role: Option<String> },
    AwaitEnd { agent_id: String },
    AwaitRemoved { spawned: Option<String>, error: FunctionCallError },
    AwaitShutdown { error: FunctionCallError },
    AwaitFailedEnd { error: FunctionCallError },
    Finished,
}

/// The model of `ThreadSpec`.
pub ghost struct ThreadModel {
    pub cwd: Option<Seq<char>>,
    pub parent_thread_id: Seq<char>,
    pub depth: i32,
    pub role: Option<Seq<char>>,
}

/// The model of `SpawnEnd`.
pub ghost struct EndModel {
    pub call_id: Seq<char>,
    pub sender_thread_id: Seq<char>,
    pub new_thread_id: Option<Seq<char>>,
    pub new_agent_nickname: Option<Seq<char>>,
    pub new_agent_role: Option<Seq<char>>,
    pub prompt: Seq<char>,
    pub status: Option<StatusModel>,
}

/// The model of `SpawnFailure`.
pub ghost struct FailureModel {
    pub limit_reached: bool,
    pub error: ErrorModel,
}

/// The model of `SpawnAction`.
pub ghost enum ActionModel {
    SendBegin { call_id: Seq<char>, sender_thread_id: Seq<char>, prompt: Seq<char> },
    BuildConfig { depth: i32 },
    ApplyRole { role: Option<Seq<char>> },
    ApplyModelOverrides { model_provider: Option<Seq<char>>, model: Option<Seq<char>> },
    ApplyRuntimeOverrides,
    ApplySpawnOverrides { depth: i32 },
    CreateWorktree,
    SpawnThread { thread: ThreadModel, fork_parent_spawn_call_id: Option<Seq<char>> },
    ReapFinishedAgents { slots: usize },
    RespawnThread { thread: ThreadModel },
    RunStartHooks { agent_id: Seq<char>, agent_type: Seq<char> },
    InjectMessage { agent_id: Seq<char>, message: Seq<char> },
    SendInput { agent_id: Seq<char> },
    RemoveWorktree { worktree_path: Seq<char> },
    ShutdownAgent { agent_id: Seq<char> },
    RegisterWorktree { agent_id: Seq<char>, worktree_path: Seq<char> },
    StartBackgroundCleanup { agent_id: Seq<char> },
    ReadNames { agent_id: Seq<char> },
    ReadStatus { agent_id: Seq<char> },
    SendEnd(EndModel),
    Finish(Result<OutputModel, ErrorModel>),
}

/// The model of `SpawnEvent`.
pub ghost enum EventModel {
    Done,
    Attempted(Result<(), ErrorModel>),
    RoleApplied(Result<(), Seq<char>>),
    WorktreeCreated(Result<Seq<char>, ErrorModel>),
    ThreadSpawned(Result<Seq<char>, FailureModel>),
    Reaped(usize),
    HookContext(Seq<Seq<char>>),
    Names(Option<(Option<Seq<char>>, Option<Seq<char>>)>),
    Status(StatusModel),
}

/// The model of `SpawnPhase`.
pub ghost enum PhaseModel {
    AwaitBegin,
    AwaitConfig,
    AwaitRole,
    AwaitModelOverrides,
    AwaitRuntimeOverrides,
    AwaitSpawnOverrides,
    AwaitWorktree,
    AwaitThread,
    AwaitReaped { error: ErrorModel },
    AwaitRespawn,
    AwaitHookContext { agent_id: Seq<char> },
    AwaitInjected { agent_id: Seq<char> },
    AwaitInput { agent_id: Seq<char> },
    AwaitRegistered { agent_id: Seq<char> },
    AwaitCleanup { agent_id: Seq<char> },
    AwaitNames { agent_id: Seq<char> },
    AwaitStatus { agent_id: Seq<char>, nickname: Option<Seq<char>>, role: Option<Seq<char>> },
    AwaitEnd { agent_id: Seq<char> },
    AwaitRemoved { spawned: Option<Seq<char>>, error: ErrorModel },
    AwaitShutdown { error: ErrorModel },
    AwaitFailedEnd { error: ErrorModel },
    Finished,
}

impl View for ThreadSpec {
    type V = ThreadModel;

    open spec fn view(&self) -> ThreadModel {
        ThreadModel {
            cwd: opt_text(self.cwd),
            parent_thread_id: self.parent_thread_id@,
            depth: self.depth,
            role: opt_text(self.role),
        }
    }
}

impl View for SpawnEnd {
    type V = EndModel;

    open spec fn view(&self) -> EndModel {
        EndModel {
            call_id: self.call_id@,
            sender_thread_id: self.sender_thread_id@,
            new_thread_id: opt_text(self.new_thread_id),
            new_agent_nickname: opt_text(self.new_agent_nickname),
            new_agent_role: opt_text(self.new_agent_role),
            prompt: self.prompt@,
            status: opt_status(self.status),
        }
    }
}

impl View for SpawnFailure {
    type V = FailureModel;

    open spec fn view(&self) -> FailureModel {
        FailureModel { limit_reached: self.limit_reached, error: self.error@ }
    }
}

impl View for SpawnAction {
    type V = ActionModel;

    open spec fn view(&self) -> ActionModel {
        match self {
            SpawnAction::SendBegin { call_id, sender_thread_id, prompt } => ActionModel::SendBegin {
                call_id: call_id@,
                sender_thread_id: sender_thread_id@,
                prompt: prompt@,
            },
            SpawnAction::BuildConfig { depth } => ActionModel::BuildConfig { depth: *depth },
            SpawnAction::ApplyRole { role } => ActionModel::ApplyRole { role: opt_text(*role) },
            SpawnAction::ApplyModelOverrides { model_provider, model } =>
                ActionModel::ApplyModelOverrides {
                model_provider: opt_text(*model_provider),
                model: opt_text(*model),
            },
            SpawnAction::ApplyRuntimeOverrides => ActionModel::ApplyRuntimeOverrides,
            SpawnAction::ApplySpawnOverrides { depth } => ActionModel::ApplySpawnOverrides {
                depth: *depth,
            },
            SpawnAction::CreateWorktree => ActionModel::CreateWorktree,
            SpawnAction::SpawnThread { thread, fork_parent_spawn_call_id } =>
                ActionModel::SpawnThread {
                thread: thread@,
                fork_parent_spawn_call_id: opt_text(*fork_parent_spawn_call_id),
            },
            SpawnAction::ReapFinishedAgents { slots } => ActionModel::ReapFinishedAgents {
                slots: *slots,
            },
            SpawnAction::RespawnThread { thread } => ActionModel::RespawnThread { thread: thread@ },
            SpawnAction::RunStartHooks { agent_id, agent_type } => ActionModel::RunStartHooks {
                agent_id: agent_id@,
                agent_type: agent_type@,
            },
            SpawnAction::InjectMessage { agent_id, message } => ActionModel::InjectMessage {
                agent_id: agent_id@,
                message: message@,
            },
            SpawnAction::SendInput { agent_id } => ActionModel::SendInput { agent_id: agent_id@ },
            SpawnAction::RemoveWorktree { worktree_path } => ActionModel::RemoveWorktree {
                worktree_path: worktree_path@,
            },
            SpawnAction::ShutdownAgent { agent_id } => ActionModel::ShutdownAgent {
                agent_id: agent_id@,
            },
            SpawnAction::RegisterWorktree { agent_id, worktree_path } =>
                ActionModel::RegisterWorktree {
                agent_id: agent_id@,
                worktree_path: worktree_path@,
            },
            SpawnAction::StartBackgroundCleanup { agent_id } =>
                ActionModel::StartBackgroundCleanup { agent_id: agent_id@ },
            SpawnAction::ReadNames { agent_id } => ActionModel::ReadNames { agent_id: agent_id@ },
            SpawnAction::ReadStatus { agent_id } => ActionModel::ReadStatus { agent_id: agent_id@ },
            SpawnAction::SendEnd(end) => ActionModel::SendEnd(end@),
            SpawnAction::Finish(result) => ActionModel::Finish(output_result(*result)),
        }
    }
}

impl View for SpawnEvent {
    type V = EventModel;

    open spec fn view(&self) -> EventModel {
        match self {
            SpawnEvent::Done => EventModel::Done,
            SpawnEvent::Attempted(result) => EventModel::Attempted(result_model(*result)),
            SpawnEvent::RoleApplied(result) => EventModel::RoleApplied(stored_result(*result)),
            SpawnEvent::WorktreeCreated(result) => EventModel::WorktreeCreated(
                checked_text(*result),
            ),
            SpawnEvent::ThreadSpawned(result) => EventModel::ThreadSpawned(
                match result {
                    Ok(agent_id) => Ok(agent_id@),
                    Err(failure) => Err(failure@),
                },
            ),
            SpawnEvent::Reaped(slots) => EventModel::Reaped(*slots),
            SpawnEvent::HookContext(context) => EventModel::HookContext(texts(context@)),
            SpawnEvent::Names(names) => EventModel::Names(
                match names {
                    Some((nickname, role)) => Some((opt_text(*nickname), opt_text(*role))),
                    None => None,
                },
            ),
            SpawnEvent::Status(status) => EventModel::Status(status@),
        }
    }
}

impl View for SpawnPhase {
    type V = PhaseModel;

    open spec fn view(&self) -> PhaseModel {
        match self {
            SpawnPhase::AwaitBegin => PhaseModel::AwaitBegin,
            SpawnPhase::AwaitConfig => PhaseModel::AwaitConfig,
            SpawnPhase::AwaitRole => PhaseModel::AwaitRole,
            SpawnPhase::AwaitModelOverrides => PhaseModel::AwaitModelOverrides,
            SpawnPhase::AwaitRuntimeOverrides => PhaseModel::AwaitRuntimeOverrides,
            SpawnPhase::AwaitSpawnOverrides => PhaseModel::AwaitSpawnOverrides,
            SpawnPhase::AwaitWorktree => PhaseModel::AwaitWorktree,
            SpawnPhase::AwaitThread => PhaseModel::AwaitThread,
            SpawnPhase::AwaitReaped { error } => PhaseModel::AwaitReaped { error: error@ },
            SpawnPhase::AwaitRespawn => PhaseModel::AwaitRespawn,
            SpawnPhase::AwaitHookContext { agent_id } => PhaseModel::AwaitHookContext {
                agent_id: agent_id@,
            },
            SpawnPhase::AwaitInjected { agent_id } => PhaseModel::AwaitInjected {
                agent_id: agent_id@,
            },
            SpawnPhase::AwaitInput { agent_id } => PhaseModel::AwaitInput { agent_id: agent_id@ },
            SpawnPhase::AwaitRegistered { agent_id } => PhaseModel::AwaitRegistered {
                agent_id: agent_id@,
            },
            SpawnPhase::AwaitCleanup { agent_id } => PhaseModel::AwaitCleanup {
                agent_id: agent_id@,
            },
            SpawnPhase::AwaitNames { agent_id } => PhaseModel::AwaitNames { agent_id: agent_id@ },
            SpawnPhase::AwaitStatus { agent_id, nickname, role } => PhaseModel::AwaitStatus {
                agent_id: agent_id@,
                nickname: opt_text(*nickname),
                role: opt_text(*role),
            },
            SpawnPhase::AwaitEnd { agent_id } => PhaseModel::AwaitEnd { agent_id: agent_id@ },
            SpawnPhase::AwaitRemoved { spawned, error } => PhaseModel::AwaitRemoved {
                spawned: opt_text(*spawned),
                error: error@,
            },
            SpawnPhase::AwaitShutdown { error } => PhaseModel::AwaitShutdown { error: error@ },
            SpawnPhase::AwaitFailedEnd { error } => PhaseModel::AwaitFailedEnd { error: error@ },
            SpawnPhase::Finished => PhaseModel::Finished,
        }
    }
}

/// A call of `spawn_agent` on its way. `worktree` is the path of the worktree that was made
/// for the agent.
#[derive(Debug)]
pub struct SpawnAgent {
    call: SpawnCall,
    worktree: Option<String>,
    phase: SpawnPhase,
}

/// The model of `SpawnAgent`.
pub ghost struct SpawnModel {
    pub call: CallModel,
    pub worktree: Option<Seq<char>>,
    pub phase: PhaseModel,
}

impl View for SpawnAgent {
    type V = SpawnModel;

    closed spec fn view(&self) -> SpawnModel {
        SpawnModel { call: self.call@, worktree: opt_text(self.worktree), phase: self.phase@ }
    }
}

/// Whether an event answers the action that a phase waits for.
pub open spec fn awaited(phase: PhaseModel, event: EventModel) -> bool {
    match phase {
        PhaseModel::AwaitBegin => event is Done,
        PhaseModel::AwaitConfig => event is Attempted,
        PhaseModel::AwaitRole => event is RoleApplied,
        PhaseModel::AwaitModelOverrides => event is Attempted,
        PhaseModel::AwaitRuntimeOverrides => event is Attempted,
        PhaseModel::AwaitSpawnOverrides => event is Done,
        PhaseModel::AwaitWorktree => event is WorktreeCreated,
        PhaseModel::AwaitThread => event is ThreadSpawned,
        PhaseModel::AwaitReaped { .. } => event is Reaped,
        PhaseModel::AwaitRespawn => event is ThreadSpawned,
        PhaseModel::AwaitHookContext { .. } => event is HookContext,
        PhaseModel::AwaitInjected { .. } => event is Done,
        PhaseModel::AwaitInput { .. } => event is Attempted,
        PhaseModel::AwaitRegistered { .. } => event is Done,
        PhaseModel::AwaitCleanup { .. } => event is Done,
        PhaseModel::AwaitNames { .. } => event is Names,
        PhaseModel::AwaitStatus { .. } => event is Status,
        PhaseModel::AwaitEnd { .. } => event is Done,
        PhaseModel::AwaitRemoved { .. } => event is Done,
        PhaseModel::AwaitShutdown { .. } => event is Done,
        PhaseModel::AwaitFailedEnd { .. } => event is Done,
        PhaseModel::Finished => false,
    }
}

/// A call at another phase.
pub open spec fn at(state: SpawnModel, phase: PhaseModel) -> SpawnModel {
    SpawnModel { phase, ..state }
}

/// The thread that the new agent is to run in.
pub open spec fn thread_model(state: SpawnModel) -> ThreadModel {
    ThreadModel {
        cwd: state.worktree,
        parent_thread_id: state.call.sender_thread_id,
        depth: state.call.depth,
        role: state.call.role,
    }
}

/// The end of a call that has spawned no agent: its status, `None`, tells that the agent was
/// not found.
pub open spec fn failed_end(call: CallModel) -> EndModel {
    EndModel {
        call_id: call.call_id,
        sender_thread_id: call.sender_thread_id,
        new_thread_id: None,
        new_agent_nickname: None,
        new_agent_role: None,
        prompt: call.prompt,
        status: None,
    }
}

/// A call that ends with an error and reports nothing.
pub open spec fn refused(state: SpawnModel, error: ErrorModel) -> (SpawnModel, ActionModel) {
    (at(state, PhaseModel::Finished), ActionModel::Finish(Err(error)))
}

/// A call that ends with an error once it has reported that.
pub open spec fn reported(state: SpawnModel, error: ErrorModel) -> (SpawnModel, ActionModel) {
    (
        at(state, PhaseModel::AwaitFailedEnd { error }),
        ActionModel::SendEnd(failed_end(state.call)),
    )
}

/// A call that shuts down the agent that it has spawned, if any, before it ends with an error.
pub open spec fn dismissed(
    state: SpawnModel,
    agent_id: Option<Seq<char>>,
    error: ErrorModel,
) -> (SpawnModel, ActionModel) {
    match agent_id {
        Some(agent_id) => (
            at(state, PhaseModel::AwaitShutdown { error }),
            ActionModel::ShutdownAgent { agent_id },
        ),
        None => reported(state, error),
    }
}

/// A call that undoes what it has done before it ends with an error: the worktree goes first,
/// then the agent.
pub open spec fn undone(
    state: SpawnModel,
    agent_id: Option<Seq<char>>,
    error: ErrorModel,
) -> (SpawnModel, ActionModel) {
    match state.worktree {
        Some(worktree_path) => (
            at(state, PhaseModel::AwaitRemoved { spawned: agent_id, error }),
            ActionModel::RemoveWorktree { worktree_path },
        ),
        None => dismissed(state, agent_id, error),
    }
}

/// A call that is ready to spawn the thread.
pub open spec fn ready(state: SpawnModel) -> (SpawnModel, ActionModel) {
    (
        at(state, PhaseModel::AwaitThread),
        ActionModel::SpawnThread {
            thread: thread_model(state),
            fork_parent_spawn_call_id: if state.call.fork_context {
                Some(state.call.call_id)
            } else {
                None
            },
        },
    )
}

/// A call that has spawned the thread: the hooks run before the agent gets its input.
pub open spec fn spawned(state: SpawnModel, agent_id: Seq<char>) -> (SpawnModel, ActionModel) {
    (
        at(state, PhaseModel::AwaitHookContext { agent_id }),
        ActionModel::RunStartHooks {
            agent_id,
            agent_type: match state.call.role {
                Some(role) => role,
                None => "default"@,
            },
        },
    )
}

/// A call whose agent has the worktree, if there is one.
pub open spec fn equipped(state: SpawnModel, agent_id: Seq<char>) -> (SpawnModel, ActionModel) {
    if state.call.background {
        (
            at(state, PhaseModel::AwaitCleanup { agent_id }),
            ActionModel::StartBackgroundCleanup { agent_id },
        )
    } else {
        (at(state, PhaseModel::AwaitNames { agent_id }), ActionModel::ReadNames { agent_id })
    }
}

/// The answer to a call that has spawned an agent, as JSON.
pub open spec fn answer_tree(agent_id: Seq<char>) -> JsonTree {
    object(seq![("agent_id"@, JsonTree::Text(agent_id))])
}

/// The result of a call, given the answer as text or why there is none.
pub open spec fn answer_result(rendered: Result<Seq<char>, Seq<char>>) -> Result<
    OutputModel,
    ErrorModel,
> {
    match rendered {
        Ok(text) => Ok(OutputModel { text, success: Some(true) }),
        Err(error) => Err(
            ErrorModel::Fatal("failed to serialize spawn_agent result: "@ + error),
        ),
    }
}

/// The course of a call: where an event leads, and what is to be done there.
pub open spec fn next(state: SpawnModel, event: EventModel) -> (SpawnModel, ActionModel) {
    let call = state.call;
    match (state.phase, event) {
        (PhaseModel::AwaitBegin, EventModel::Done) => (
            at(state, PhaseModel::AwaitConfig),
            ActionModel::BuildConfig { depth: call.depth },
        ),
        (PhaseModel::AwaitConfig, EventModel::Attempted(result)) => match result {
            Ok(_) => (at(state, PhaseModel::AwaitRole), ActionModel::ApplyRole { role: call.role }),
            Err(error) => refused(state, error),
        },
        (PhaseModel::AwaitRole, EventModel::RoleApplied(result)) => match result {
            Ok(_) => (
                at(state, PhaseModel::AwaitModelOverrides),
                ActionModel::ApplyModelOverrides {
                    model_provider: call.model_provider,
                    model: call.model,
                },
            ),
            Err(message) => refused(state, ErrorModel::RespondToModel(message)),
        },
        (PhaseModel::AwaitModelOverrides, EventModel::Attempted(result)) => match result {
            Ok(_) => (
                at(state, PhaseModel::AwaitRuntimeOverrides),
                ActionModel::ApplyRuntimeOverrides,
            ),
            Err(error) => refused(state, error),
        },
        (PhaseModel::AwaitRuntimeOverrides, EventModel::Attempted(result)) => match result {
            Ok(_) => (
                at(state, PhaseModel::AwaitSpawnOverrides),
                ActionModel::ApplySpawnOverrides { depth: call.depth },
            ),
            Err(error) => refused(state, error),
        },
        (PhaseModel::AwaitSpawnOverrides, EventModel::Done) => if call.use_worktree {
            (at(state, PhaseModel::AwaitWorktree), ActionModel::CreateWorktree)
        } else {
            ready(state)
        },
        (PhaseModel::AwaitWorktree, EventModel::WorktreeCreated(result)) => match result {
            Ok(path) => ready(SpawnModel { worktree: Some(path), ..state }),
            Err(error) => reported(state, error),
        },
        (PhaseModel::AwaitThread, EventModel::ThreadSpawned(result)) => match result {
            Ok(agent_id) => spawned(state, agent_id),
            Err(failure) => if failure.limit_reached {
                (
                    at(state, PhaseModel::AwaitReaped { error: failure.error }),
                    ActionModel::ReapFinishedAgents { slots: 1 },
                )
            } else {
                undone(state, None, failure.error)
            },
        },
        (PhaseModel::AwaitReaped { error }, EventModel::Reaped(slots)) => if slots == 0 {
            undone(state, None, error)
        } else {
            (
                at(state, PhaseModel::AwaitRespawn),
                ActionModel::RespawnThread { thread: thread_model(state) },
            )
        },
        (PhaseModel::AwaitRespawn, EventModel::ThreadSpawned(result)) => match result {
            Ok(agent_id) => spawned(state, agent_id),
            Err(failure) => undone(state, None, failure.error),
        },
        (PhaseModel::AwaitHookContext { agent_id }, EventModel::HookContext(context)) => if context
            .len() > 0 {
            (
                at(state, PhaseModel::AwaitInjected { agent_id }),
                ActionModel::InjectMessage { agent_id, message: joined(context, "\n\n"@) },
            )
        } else {
            (at(state, PhaseModel::AwaitInput { agent_id }), ActionModel::SendInput { agent_id })
        },
        (PhaseModel::AwaitInjected { agent_id }, EventModel::Done) => (
            at(state, PhaseModel::AwaitInput { agent_id }),
            ActionModel::SendInput { agent_id },
        ),
        (PhaseModel::AwaitInput { agent_id }, EventModel::Attempted(result)) => match result {
            Ok(_) => match state.worktree {
                Some(worktree_path) => (
                    at(state, PhaseModel::AwaitRegistered { agent_id }),
                    ActionModel::RegisterWorktree { agent_id, worktree_path },
                ),
                None => equipped(state, agent_id),
            },
            Err(error) => undone(state, Some(agent_id), error),
        },
        (PhaseModel::AwaitRegistered { agent_id }, EventModel::Done) => equipped(state, agent_id),
        (PhaseModel::AwaitCleanup { agent_id }, EventModel::Done) => (
            at(state, PhaseModel::AwaitNames { agent_id }),
            ActionModel::ReadNames { agent_id },
        ),
        (PhaseModel::AwaitNames { agent_id }, EventModel::Names(names)) => (
            at(
                state,
                PhaseModel::AwaitStatus {
                    agent_id,
                    nickname: match names {
                        Some((nickname, _)) => nickname,
                        None => None,
                    },
                    role: match names {
                        Some((_, role)) => role,
                        None => None,
                    },
                },
            ),
            ActionModel::ReadStatus { agent_id },
        ),
        (PhaseModel::AwaitStatus { agent_id, nickname, role }, EventModel::Status(status)) => (
            at(state, PhaseModel::AwaitEnd { agent_id }),
            ActionModel::SendEnd(
                EndModel {
                    call_id: call.call_id,
                    sender_thread_id: call.sender_thread_id,
                    new_thread_id: Some(agent_id),
                    new_agent_nickname: nickname,
                    new_agent_role: role,
                    prompt: call.prompt,
                    status: Some(status),
                },
            ),
        ),
        (PhaseModel::AwaitEnd { agent_id }, EventModel::Done) => (
            at(state, PhaseModel::Finished),
            ActionModel::Finish(answer_result(rendered_json(answer_tree(agent_id)))),
        ),
        (PhaseModel::AwaitRemoved { spawned, error }, EventModel::Done) => dismissed(
            state,
            spawned,
            error,
        ),
        (PhaseModel::AwaitShutdown { error }, EventModel::Done) => reported(state, error),
        (PhaseModel::AwaitFailedEnd { error }, EventModel::Done) => refused(state, error),
        _ => arbitrary(),
    }
}

/// The role of a new agent.
pub fn role_name(agent_type: &Option<String>) -> (role: Option<String>)
    ensures
        opt_text(role) == role_of(opt_text(*agent_type)),
{
    match agent_type {
        Some(name) => {
            let role = trim(name.as_str());
            if role.unicode_len() > 0 {
                Some(role.to_string())
            } else {
                None
            }
        },
        None => None,
    }
}

/// Whether a call is admitted, and as what.
pub fn checked_call(request: SpawnRequest, checks: SpawnChecks) -> (result: Result<
    SpawnCall,
    FunctionCallError,
>)
    ensures
        match result {
            Ok(call) => Ok::<CallModel, ErrorModel>(call@) == admitted(request@, checks@),
            Err(error) => Err::<CallModel, ErrorModel>(error@) == admitted(request@, checks@),
        },
{
    let team = match checks.team {
        Ok(team) => team,
        Err(error) => return Err(error),
    };
    if let Some(team_id) = team {
        let mut message =
            "spawn_agent is disabled for agent team teammates (team `".to_string();
        message.append(team_id.as_str());
        message.append("`). Ask the team lead to spawn agents.");
        return Err(FunctionCallError::RespondToModel(message));
    }
    let role = role_name(&request.agent_type);
    let model_provider = match checks.model_provider {
        Ok(model_provider) => model_provider,
        Err(error) => return Err(error),
    };
    let model = match checks.model {
        Ok(model) => model,
        Err(error) => return Err(error),
    };
    let prompt = match checks.prompt {
        Ok(prompt) => prompt,
        Err(error) => return Err(error),
    };
    if checks.depth_exceeded {
        return Err(
            FunctionCallError::RespondToModel(
                "Agent depth limit reached. Solve the task yourself.".to_string(),
            ),
        );
    }
    Ok(
        SpawnCall {
            call_id: request.call_id,
            sender_thread_id: request.sender_thread_id,
            prompt,
            role,
            model_provider,
            model,
            depth: checks.child_depth,
            fork_context: request.fork_context,
            use_worktree: request.worktree,
            background: request.background,
        },
    )
}

/// Begins a call of `spawn_agent`, unless it is refused. The first thing to do is to report
/// that an agent is about to be spawned.
pub fn handle(request: SpawnRequest, checks: SpawnChecks) -> (begun: Result<
    (SpawnAgent, SpawnAction),
    FunctionCallError,
>)
    ensures
        match begun {
            Ok((state, action)) => {
                &&& admitted(request@, checks@) == Ok::<CallModel, ErrorModel>(state@.call)
                &&& state@.worktree is None
                &&& state@.phase is AwaitBegin
                &&& action@ == (ActionModel::SendBegin {
                    call_id: state@.call.call_id,
                    sender_thread_id: state@.call.sender_thread_id,
                    prompt: state@.call.prompt,
                })
            },
            Err(error) => admitted(request@, checks@) == Err::<CallModel, ErrorModel>(error@),
        },
{
    match checked_call(request, checks) {
        Ok(call) => {
            let action = SpawnAction::SendBegin {
                call_id: call.call_id.clone(),
                sender_thread_id: call.sender_thread_id.clone(),
                prompt: call.prompt.clone(),
            };
            Ok((SpawnAgent { call, worktree: None, phase: SpawnPhase::AwaitBegin }, action))
        },
        Err(error) => Err(error),
    }
}

/// The answer to a call that has spawned an agent.
pub fn answer_json(agent_id: &str) -> (json: Json)
    ensures
        json.tree() == answer_tree(agent_id@),
{
    let mut entries: Vec<(String, Json)> = Vec::new();
    entries.push(("agent_id".to_string(), Json::Text(agent_id.to_string())));
    proof {
        assert(named_trees_of(entries@) =~= seq![("agent_id"@, JsonTree::Text(agent_id@))]);
    }
    Json::Object(entries)
}

/// The result of a call, given the answer as text or why there is none.
pub fn answer_output(rendered: Result<String, String>) -> (result: Result<
    TextOutput,
    FunctionCallError,
>)
    ensures
        output_result(result) == answer_result(text_result(rendered)),
{
    match rendered {
        Ok(text) => Ok(TextOutput { text, success: Some(true) }),
        Err(error) => {
            let mut message = "failed to serialize spawn_agent result: ".to_string();
            message.append(error.as_str());
            Err(FunctionCallError::Fatal(message))
        },
    }
}

fn clone_text(text: &Option<String>) -> (copy: Option<String>)
    ensures
        opt_text(copy) == opt_text(*text),
{
    match text {
        Some(text) => Some(text.clone()),
        None => None,
    }
}

impl SpawnAgent {
    /// Whether an event answers the action that the call waits for.
    pub fn awaits(&self, event: &SpawnEvent) -> (result: bool)
        ensures
            result == awaited(self@.phase, event@),
    {
        match (&self.phase, event) {
            (SpawnPhase::AwaitBegin, SpawnEvent::Done) => true,
            (SpawnPhase::AwaitConfig, SpawnEvent::Attempted(_)) => true,
            (SpawnPhase::AwaitRole, SpawnEvent::RoleApplied(_)) => true,
            (SpawnPhase::AwaitModelOverrides, SpawnEvent::Attempted(_)) => true,
            (SpawnPhase::AwaitRuntimeOverrides, SpawnEvent::Attempted(_)) => true,
            (SpawnPhase::AwaitSpawnOverrides, SpawnEvent::Done) => true,
            (SpawnPhase::AwaitWorktree, SpawnEvent::WorktreeCreated(_)) => true,
            (SpawnPhase::AwaitThread, SpawnEvent::ThreadSpawned(_)) => true,
            (SpawnPhase::AwaitReaped { .. }, SpawnEvent::Reaped(_)) => true,
            (SpawnPhase::AwaitRespawn, SpawnEvent::ThreadSpawned(_)) => true,
            (SpawnPhase::AwaitHookContext { .. }, SpawnEvent::HookContext(_)) => true,
            (SpawnPhase::AwaitInjected { .. }, SpawnEvent::Done) => true,
            (SpawnPhase::AwaitInput { .. }, SpawnEvent::Attempted(_)) => true,
            (SpawnPhase::AwaitRegistered { .. }, SpawnEvent::Done) => true,
            (SpawnPhase::AwaitCleanup { .. }, SpawnEvent::Done) => true,
            (SpawnPhase::AwaitNames { .. }, SpawnEvent::Names(_)) => true,
            (SpawnPhase::AwaitStatus { .. }, SpawnEvent::Status(_)) => true,
            (SpawnPhase::AwaitEnd { .. }, SpawnEvent::Done) => true,
            (SpawnPhase::AwaitRemoved { .. }, SpawnEvent::Done) => true,
            (SpawnPhase::AwaitShutdown { .. }, SpawnEvent::Done) => true,
            (SpawnPhase::AwaitFailedEnd { .. }, SpawnEvent::Done) => true,
            _ => false,
        }
    }

    fn at(self, phase: SpawnPhase) -> (moved: SpawnAgent)
        ensures
            moved@ == at(self@, phase@),
    {
        SpawnAgent { call: self.call, worktree: self.worktree, phase }
    }

    fn thread(&self) -> (thread: ThreadSpec)
        ensures
            thread@ == thread_model(self@),
    {
        ThreadSpec {
            cwd: clone_text(&self.worktree),
            parent_thread_id: self.call.sender_thread_id.clone(),
            depth: self.call.depth,
            role: clone_text(&self.call.role),
        }
    }

    fn refused(self, error: FunctionCallError) -> (moved: (SpawnAgent, SpawnAction))
        ensures
            (moved.0@, moved.1@) == refused(self@, error@),
    {
        (self.at(SpawnPhase::Finished), SpawnAction::Finish(Err(error)))
    }

    fn reported(self, error: FunctionCallError) -> (moved: (SpawnAgent, SpawnAction))
        ensures
            (moved.0@, moved.1@) == reported(self@, error@),
    {
        let end = SpawnEnd {
            call_id: self.call.call_id.clone(),
            sender_thread_id: self.call.sender_thread_id.clone(),
            new_thread_id: None,
            new_agent_nickname: None,
            new_agent_role: None,
            prompt: self.call.prompt.clone(),
            status: None,
        };
        (self.at(SpawnPhase::AwaitFailedEnd { error }), SpawnAction::SendEnd(end))
    }

    fn dismissed(self, agent_id: Option<String>, error: FunctionCallError) -> (moved: (
        SpawnAgent,
        SpawnAction,
    ))
        ensures
            (moved.0@, moved.1@) == dismissed(self@, opt_text(agent_id), error@),
    {
        match agent_id {
            Some(agent_id) => (
                self.at(SpawnPhase::AwaitShutdown { error }),
                SpawnAction::ShutdownAgent { agent_id },
            ),
            None => self.reported(error),
        }
    }

    fn undone(self, agent_id: Option<String>, error: FunctionCallError) -> (moved: (
        SpawnAgent,
        SpawnAction,
    ))
        ensures
            (moved.0@, moved.1@) == undone(self@, opt_text(agent_id), error@),
    {
        match clone_text(&self.worktree) {
            Some(worktree_path) => (
                self.at(SpawnPhase::AwaitRemoved { spawned: agent_id, error }),
                SpawnAction::RemoveWorktree { worktree_path },
            ),
            None => self.dismissed(agent_id, error),
        }
    }

    fn ready(self) -> (moved: (SpawnAgent, SpawnAction))
        ensures
            (moved.0@, moved.1@) == ready(self@),
    {
        let thread = self.thread();
        let fork_parent_spawn_call_id = if self.call.fork_context {
            Some(self.call.call_id.clone())
        } else {
            None
        };
        (
            self.at(SpawnPhase::AwaitThread),
            SpawnAction::SpawnThread { thread, fork_parent_spawn_call_id },
        )
    }

    fn spawned(self, agent_id: String) -> (moved: (SpawnAgent, SpawnAction))
        ensures
            (moved.0@, moved.1@) == spawned(self@, agent_id@),
    {
        let agent_type = match &self.call.role {
            Some(role) => role.clone(),
            None => "default".to_string(),
        };
        let action = SpawnAction::RunStartHooks { agent_id: agent_id.clone(), agent_type };
        (self.at(SpawnPhase::AwaitHookContext { agent_id }), action)
    }

    fn equipped(self, agent_id: String) -> (moved: (SpawnAgent, SpawnAction))
        ensures
            (moved.0@, moved.1@) == equipped(self@, agent_id@),
    {
        let of = agent_id.clone();
        if self.call.background {
            (
                self.at(SpawnPhase::AwaitCleanup { agent_id }),
                SpawnAction::StartBackgroundCleanup { agent_id: of },
            )
        } else {
            (self.at(SpawnPhase::AwaitNames { agent_id }), SpawnAction::ReadNames { agent_id: of })
        }
    }

    /// Goes on with a call at an event.
    pub fn step(self, event: SpawnEvent) -> (moved: (SpawnAgent, SpawnAction))
        requires
            awaited(self@.phase, event@),
        ensures
            (moved.0@, moved.1@) == next(self@, event@),
            self@.phase is AwaitEnd ==> moved.1@ matches ActionModel::Finish(Ok(_)),
    {
        let SpawnAgent { call, worktree, phase } = self;
        let state = SpawnAgent { call, worktree, phase: SpawnPhase::Finished };
        match (phase, event) {
            (SpawnPhase::AwaitBegin, SpawnEvent::Done) => {
                let depth: i32 = state.call.depth;
                (state.at(SpawnPhase::AwaitConfig), SpawnAction::BuildConfig { depth })
            },
            (SpawnPhase::AwaitConfig, SpawnEvent::Attempted(result)) => match result {
                Ok(_) => {
                    let role = clone_text(&state.call.role);
                    (state.at(SpawnPhase::AwaitRole), SpawnAction::ApplyRole { role })
                },
                Err(error) => state.refused(error),
            },
            (SpawnPhase::AwaitRole, SpawnEvent::RoleApplied(result)) => match result {
                Ok(_) => {
                    let model_provider = clone_text(&state.call.model_provider);
                    let model = clone_text(&state.call.model);
                    (
                        state.at(SpawnPhase::AwaitModelOverrides),
                        SpawnAction::ApplyModelOverrides { model_provider, model },
                    )
                },
                Err(message) => state.refused(FunctionCallError::RespondToModel(message)),
            },
            (SpawnPhase::AwaitModelOverrides, SpawnEvent::Attempted(result)) => match result {
                Ok(_) => (
                    state.at(SpawnPhase::AwaitRuntimeOverrides),
                    SpawnAction::ApplyRuntimeOverrides,
                ),
                Err(error) => state.refused(error),
            },
            (SpawnPhase::AwaitRuntimeOverrides, SpawnEvent::Attempted(result)) => match result {
                Ok(_) => {
                    let depth: i32 = state.call.depth;
                    (
                        state.at(SpawnPhase::AwaitSpawnOverrides),
                        SpawnAction::ApplySpawnOverrides { depth },
                    )
                },
                Err(error) => state.refused(error),
            },
            (SpawnPhase::AwaitSpawnOverrides, SpawnEvent::Done) => if state.call.use_worktree {
                (state.at(SpawnPhase::AwaitWorktree), SpawnAction::CreateWorktree)
            } else {
                state.ready()
            },
            (SpawnPhase::AwaitWorktree, SpawnEvent::WorktreeCreated(result)) => match result {
                Ok(path) => {
                    let leased = SpawnAgent {
                        call: state.call,
                        worktree: Some(path),
                        phase: state.phase,
                    };
                    leased.ready()
                },
                Err(error) => state.reported(error),
            },
            (SpawnPhase::AwaitThread, SpawnEvent::ThreadSpawned(result)) => match result {
                Ok(agent_id) => state.spawned(agent_id),
                Err(failure) => if failure.limit_reached {
                    (
                        state.at(SpawnPhase::AwaitReaped { error: failure.error }),
                        SpawnAction::ReapFinishedAgents { slots: 1 },
                    )
                } else {
                    state.undone(None, failure.error)
                },
            },
            (SpawnPhase::AwaitReaped { error }, SpawnEvent::Reaped(slots)) => if slots == 0 {
                state.undone(None, error)
            } else {
                let thread = state.thread();
                (state.at(SpawnPhase::AwaitRespawn), SpawnAction::RespawnThread { thread })
            },
            (SpawnPhase::AwaitRespawn, SpawnEvent::ThreadSpawned(result)) => match result {
                Ok(agent_id) => state.spawned(agent_id),
                Err(failure) => state.undone(None, failure.error),
            },
            (SpawnPhase::AwaitHookContext { agent_id }, SpawnEvent::HookContext(context)) => {
                let of = agent_id.clone();
                if context.len() > 0 {
                    let message = join(&context, "\n\n");
                    (
                        state.at(SpawnPhase::AwaitInjected { agent_id }),
                        SpawnAction::InjectMessage { agent_id: of, message },
                    )
                } else {
                    (
                        state.at(SpawnPhase::AwaitInput { agent_id }),
                        SpawnAction::SendInput { agent_id: of },
                    )
                }
            },
            (SpawnPhase::AwaitInjected { agent_id }, SpawnEvent::Done) => {
                let of = agent_id.clone();
                (
                    state.at(SpawnPhase::AwaitInput { agent_id }),
                    SpawnAction::SendInput { agent_id: of },
                )
            },
            (SpawnPhase::AwaitInput { agent_id }, SpawnEvent::Attempted(result)) => match result {
                Ok(_) => match clone_text(&state.worktree) {
                    Some(worktree_path) => {
                        let of = agent_id.clone();
                        (
                            state.at(SpawnPhase::AwaitRegistered { agent_id }),
                            SpawnAction::RegisterWorktree { agent_id: of, worktree_path },
                        )
                    },
                    None => state.equipped(agent_id),
                },
                Err(error) => state.undone(Some(agent_id), error),
            },
            (SpawnPhase::AwaitRegistered { agent_id }, SpawnEvent::Done) => state.equipped(
                agent_id,
            ),
            (SpawnPhase::AwaitCleanup { agent_id }, SpawnEvent::Done) => {
                let of = agent_id.clone();
                (
                    state.at(SpawnPhase::AwaitNames { agent_id }),
                    SpawnAction::ReadNames { agent_id: of },
                )
            },
            (SpawnPhase::AwaitNames { agent_id }, SpawnEvent::Names(names)) => {
                let of = agent_id.clone();
                let (nickname, role) = match names {
                    Some(names) => names,
                    None => (None, None),
                };
                (
                    state.at(SpawnPhase::AwaitStatus { agent_id, nickname, role }),
                    SpawnAction::ReadStatus { agent_id: of },
                )
            },
            (
                SpawnPhase::AwaitStatus { agent_id, nickname, role },
                SpawnEvent::Status(status),
            ) => {
                let end = SpawnEnd {
                    call_id: state.call.call_id.clone(),
                    sender_thread_id: state.call.sender_thread_id.clone(),
                    new_thread_id: Some(agent_id.clone()),
                    new_agent_nickname: nickname,
                    new_agent_role: role,
                    prompt: state.call.prompt.clone(),
                    status: Some(status),
                };
                (state.at(SpawnPhase::AwaitEnd { agent_id }), SpawnAction::SendEnd(end))
            },
            (SpawnPhase::AwaitEnd { agent_id }, SpawnEvent::Done) => {
                let rendered = answer_json(agent_id.as_str()).render();
                (state, SpawnAction::Finish(answer_output(rendered)))
            },
            (SpawnPhase::AwaitRemoved { spawned, error }, SpawnEvent::Done) => state.dismissed(
                spawned,
                error,
            ),
            (SpawnPhase::AwaitShutdown { error }, SpawnEvent::Done) => state.reported(error),
            (SpawnPhase::AwaitFailedEnd { error }, SpawnEvent::Done) => state.refused(error),
            _ => unreached(),
        }
    }
}

/// Whether each of the events answers what the call waits for when it comes.
pub open spec fn admissible(state: SpawnModel, events: Seq<EventModel>) -> bool
    decreases events.len(),
{
    events.len() > 0 ==> {
        &&& awaited(state.phase, events.first())
        &&& admissible(next(state, events.first()).0, events.drop_first())
    }
}

/// Where events lead a call.
pub open spec fn after(state: SpawnModel, events: Seq<EventModel>) -> SpawnModel
    decreases events.len(),
{
    if events.len() == 0 {
        state
    } else {
        after(next(state, events.first()).0, events.drop_first())
    }
}

/// How many of the actions on the way are of some kind.
pub open spec fn tally(
    state: SpawnModel,
    events: Seq<EventModel>,
    kind: spec_fn(ActionModel) -> bool,
) -> nat
    decreases events.len(),
{
    if events.len() == 0 {
        0
    } else {
        let (moved, action) = next(state, events.first());
        tally(moved, events.drop_first(), kind) + if kind(action) {
            1nat
        } else {
            0nat
        }
    }
}

/// The most events that a call at a phase can still take.
pub open spec fn steps_left(phase: PhaseModel) -> nat {
    match phase {
        PhaseModel::AwaitBegin => 18,
        PhaseModel::AwaitConfig => 17,
        PhaseModel::AwaitRole => 16,
        PhaseModel::AwaitModelOverrides => 15,
        PhaseModel::AwaitRuntimeOverrides => 14,
        PhaseModel::AwaitSpawnOverrides => 13,
        PhaseModel::AwaitWorktree => 12,
        PhaseModel::AwaitThread => 11,
        PhaseModel::AwaitReaped { .. } => 10,
        PhaseModel::AwaitRespawn => 9,
        PhaseModel::AwaitHookContext { .. } => 8,
        PhaseModel::AwaitInjected { .. } => 7,
        PhaseModel::AwaitInput { .. } => 6,
        PhaseModel::AwaitRegistered { .. } => 5,
        PhaseModel::AwaitCleanup { .. } => 4,
        PhaseModel::AwaitNames { .. } => 3,
        PhaseModel::AwaitStatus { .. } => 2,
        PhaseModel::AwaitEnd { .. } => 1,
        PhaseModel::AwaitRemoved { .. } => 3,
        PhaseModel::AwaitShutdown { .. } => 2,
        PhaseModel::AwaitFailedEnd { .. } => 1,
        PhaseModel::Finished => 0,
    }
}

/// Every call ends: it takes no more events than `steps_left` says, and until it has ended
/// there is an event that it takes.
pub proof fn law_every_call_ends(state: SpawnModel, events: Seq<EventModel>)
    requires
        admissible(state, events),
    ensures
        events.len() <= steps_left(state.phase),
        !(state.phase is Finished) ==> exists|event: EventModel| #[trigger]
            awaited(state.phase, event),
    decreases events.len(),
{
    if events.len() > 0 {
        law_every_call_ends(next(state, events.first()).0, events.drop_first());
    } else if !(state.phase is Finished) {
        assert(awaited(state.phase, EventModel::Done) || awaited(
            state.phase,
            EventModel::Attempted(Ok(())),
        ) || awaited(state.phase, EventModel::RoleApplied(Ok(()))) || awaited(
            state.phase,
            EventModel::WorktreeCreated(Ok(Seq::empty())),
        ) || awaited(state.phase, EventModel::ThreadSpawned(Ok(Seq::empty()))) || awaited(
            state.phase,
            EventModel::Reaped(0),
        ) || awaited(state.phase, EventModel::HookContext(Seq::empty())) || awaited(
            state.phase,
            EventModel::Names(None),
        ) || awaited(
            state.phase,
            EventModel::Status(StatusModel { state: Seq::empty(), is_final: false }),
        ));
    }
}

/// A call ends with its result and in no other way: the step that ends it is the one that
/// gives the result, and it takes no event after that.
pub proof fn law_a_call_ends_with_its_result(state: SpawnModel, event: EventModel)
    requires
        awaited(state.phase, event),
    ensures
        next(state, event).1 is Finish <==> next(state, event).0.phase is Finished,
        next(state, event).1 is Finish ==> forall|later: EventModel| !(#[trigger] awaited(
            next(state, event).0.phase,
            later,
        )),
{
}

/// Nothing that a call was admitted with changes on its way.
pub proof fn law_a_call_stays_as_admitted(state: SpawnModel, events: Seq<EventModel>)
    requires
        admissible(state, events),
    ensures
        after(state, events).call == state.call,
    decreases events.len(),
{
    if events.len() > 0 {
        law_a_call_stays_as_admitted(next(state, events.first()).0, events.drop_first());
    }
}

/// Whether a worktree, once made, is still to be removed or handed over.
pub open spec fn worktree_pending(phase: PhaseModel) -> bool {
    match phase {
        PhaseModel::AwaitThread => true,
        PhaseModel::AwaitReaped { .. } => true,
        PhaseModel::AwaitRespawn => true,
        PhaseModel::AwaitHookContext { .. } => true,
        PhaseModel::AwaitInjected { .. } => true,
        PhaseModel::AwaitInput { .. } => true,
        _ => false,
    }
}

/// Whether a call can be at its phase: it has no worktree before one was made.
pub open spec fn well_formed(state: SpawnModel) -> bool {
    steps_left(state.phase) >= steps_left(PhaseModel::AwaitWorktree) ==> state.worktree is None
}

/// Whether an action removes a worktree or hands it to an agent.
pub open spec fn settles_worktree(action: ActionModel) -> bool {
    action is RemoveWorktree || action is RegisterWorktree
}

/// How many worktrees were made.
pub open spec fn worktrees_made(events: Seq<EventModel>) -> nat
    decreases events.len(),
{
    if events.len() == 0 {
        0
    } else {
        worktrees_made(events.drop_first()) + match events.first() {
            EventModel::WorktreeCreated(Ok(_)) => 1nat,
            _ => 0nat,
        }
    }
}

/// No worktree is left behind: by the time a call has ended, every worktree that was made for
/// it has been removed or handed to the agent, and that once.
pub proof fn law_no_worktree_is_left_behind(state: SpawnModel, events: Seq<EventModel>)
    requires
        well_formed(state),
        admissible(state, events),
        after(state, events).phase is Finished,
    ensures
        tally(state, events, |action: ActionModel| settles_worktree(action)) == worktrees_made(
            events,
        ) + if state.worktree is Some && worktree_pending(state.phase) {
            1nat
        } else {
            0nat
        },
    decreases events.len(),
{
    if events.len() > 0 {
        law_no_worktree_is_left_behind(next(state, events.first()).0, events.drop_first());
    }
}

/// A worktree is handed over to an agent that has got its input, and removed otherwise; in
/// both cases it is the one that was made for the call.
pub proof fn law_only_a_running_agent_gets_the_worktree(state: SpawnModel, event: EventModel)
    requires
        awaited(state.phase, event),
    ensures
        next(state, event).1 matches ActionModel::RegisterWorktree { agent_id, worktree_path }
            ==> {
            &&& state.phase == (PhaseModel::AwaitInput { agent_id })
            &&& event matches EventModel::Attempted(Ok(_))
            &&& state.worktree == Some(worktree_path)
        },
        next(state, event).1 matches ActionModel::RemoveWorktree { worktree_path } ==> next(
            state,
            event,
        ).0.phase is AwaitRemoved && state.worktree == Some(worktree_path),
        next(state, event).0.worktree != state.worktree ==> event == EventModel::WorktreeCreated(
            Ok(next(state, event).0.worktree->0),
        ),
        next(state, event).1 matches ActionModel::SpawnThread { thread, .. } ==> thread.cwd == next(
            state,
            event,
        ).0.worktree,
        next(state, event).1 matches ActionModel::RespawnThread { thread } ==> thread.cwd
            == state.worktree,
{
}

/// The error that a call is bound to end with.
pub open spec fn bound_error(phase: PhaseModel) -> Option<ErrorModel> {
    match phase {
        PhaseModel::AwaitRemoved { error, .. } => Some(error),
        PhaseModel::AwaitShutdown { error } => Some(error),
        PhaseModel::AwaitFailedEnd { error } => Some(error),
        _ => None,
    }
}

/// A call that has begun to undo what it did ends with the error that made it do so.
pub proof fn law_undoing_ends_with_the_error(state: SpawnModel, event: EventModel)
    requires
        awaited(state.phase, event),
        bound_error(state.phase) is Some,
    ensures
        bound_error(next(state, event).0.phase) == bound_error(state.phase) || next(state, event).1
            == ActionModel::Finish(Err(bound_error(state.phase)->0)),
{
}

/// Whether a call is still to report its end.
pub open spec fn end_owed(phase: PhaseModel) -> bool {
    match phase {
        PhaseModel::AwaitEnd { .. } => false,
        PhaseModel::AwaitFailedEnd { .. } => false,
        PhaseModel::Finished => false,
        _ => true,
    }
}

/// A call that has its configuration reports its end once, whether it succeeds or fails.
pub proof fn law_the_end_is_reported_once(state: SpawnModel, events: Seq<EventModel>)
    requires
        admissible(state, events),
        steps_left(state.phase) <= steps_left(PhaseModel::AwaitSpawnOverrides),
        after(state, events).phase is Finished,
    ensures
        tally(state, events, |action: ActionModel| action is SendEnd) == if end_owed(state.phase) {
            1nat
        } else {
            0nat
        },
    decreases events.len(),
{
    if events.len() > 0 {
        law_the_end_is_reported_once(next(state, events.first()).0, events.drop_first());
    }
}

/// A call whose configuration fails ends there and then, with nothing to undo.
pub proof fn law_a_failed_configuration_ends_the_call(state: SpawnModel, error: ErrorModel)
    requires
        state.phase is AwaitConfig || state.phase is AwaitModelOverrides
            || state.phase is AwaitRuntimeOverrides,
    ensures
        next(state, EventModel::Attempted(Err(error))) == refused(state, error),
{
}

/// The spawning is tried a second time at most, and only where agents were reaped because
/// there were too many. The second try forks nothing.
pub proof fn law_spawning_is_tried_at_most_twice(state: SpawnModel, events: Seq<EventModel>)
    requires
        admissible(state, events),
    ensures
        tally(state, events, |action: ActionModel| action is SpawnThread) <= if steps_left(
            state.phase,
        ) > steps_left(PhaseModel::AwaitThread) {
            1nat
        } else {
            0nat
        },
        tally(state, events, |action: ActionModel| action is RespawnThread) <= if steps_left(
            state.phase,
        ) > steps_left(PhaseModel::AwaitRespawn) {
            1nat
        } else {
            0nat
        },
    decreases events.len(),
{
    if events.len() > 0 {
        law_spawning_is_tried_at_most_twice(next(state, events.first()).0, events.drop_first());
    }
}

/// Agents are reaped only where the limit was reached, and the spawning is tried again only
/// where that made room.
pub proof fn law_a_second_try_needs_room(state: SpawnModel, event: EventModel)
    requires
        awaited(state.phase, event),
    ensures
        next(state, event).1 is ReapFinishedAgents <==> {
            &&& state.phase is AwaitThread
            &&& event matches EventModel::ThreadSpawned(Err(failure))
            &&& failure.limit_reached
        },
        next(state, event).1 is RespawnThread <==> {
            &&& state.phase is AwaitReaped
            &&& event matches EventModel::Reaped(slots)
            &&& slots > 0
        },
{
}

/// The hooks for the start of an agent have run, and what they add has been given to it,
/// before it gets its input.
pub proof fn law_hooks_run_before_the_input(state: SpawnModel, event: EventModel)
    requires
        awaited(state.phase, event),
    ensures
        next(state, event).1 is RunStartHooks <==> next(state, event).0.phase is AwaitHookContext,
        next(state, event).1 is SendInput ==> state.phase is AwaitInjected || event
            == EventModel::HookContext(Seq::empty()),
        next(state, event).0.phase is AwaitInjected <==> next(state, event).1 is InjectMessage,
        next(state, event).1 matches ActionModel::InjectMessage { message, .. } ==> event matches
            EventModel::HookContext(context) && context.len() > 0 && message == joined(
            context,
            "\n\n"@,
        ),
{
    if let EventModel::HookContext(context) = event {
        if context.len() == 0 {
            assert(context =~= Seq::empty());
        }
    }
}

/// The agent that a call has spawned.
pub open spec fn agent_of(phase: PhaseModel) -> Option<Seq<char>> {
    match phase {
        PhaseModel::AwaitHookContext { agent_id } => Some(agent_id),
        PhaseModel::AwaitInjected { agent_id } => Some(agent_id),
        PhaseModel::AwaitInput { agent_id } => Some(agent_id),
        PhaseModel::AwaitRegistered { agent_id } => Some(agent_id),
        PhaseModel::AwaitCleanup { agent_id } => Some(agent_id),
        PhaseModel::AwaitNames { agent_id } => Some(agent_id),
        PhaseModel::AwaitStatus { agent_id, .. } => Some(agent_id),
        PhaseModel::AwaitEnd { agent_id } => Some(agent_id),
        PhaseModel::AwaitRemoved { spawned, .. } => spawned,
        _ => None,
    }
}

/// A call deals with one agent, the one that it has spawned, up to its answer: it ends with
/// that agent, or shuts it down.
pub proof fn law_a_call_deals_with_the_agent_it_spawned(state: SpawnModel, event: EventModel)
    requires
        awaited(state.phase, event),
        agent_of(state.phase) is Some,
    ensures
        ({
            let agent_id = agent_of(state.phase)->0;
            let (moved, action) = next(state, event);
            ||| agent_of(moved.phase) == Some(agent_id)
            ||| action == (ActionModel::ShutdownAgent { agent_id })
            ||| action == ActionModel::Finish(answer_result(rendered_json(answer_tree(agent_id))))
        }),
{
}

/// An agent that cannot be given its input is given up: its worktree is removed, it is shut
/// down, the end is reported, and the call fails.
pub proof fn law_an_agent_without_input_is_given_up(
    state: SpawnModel,
    agent_id: Seq<char>,
    error: ErrorModel,
)
    requires
        state.phase == (PhaseModel::AwaitInput { agent_id }),
    ensures
        ({
            let failed = next(state, EventModel::Attempted(Err(error)));
            let removed = match state.worktree {
                Some(_) => next(failed.0, EventModel::Done),
                None => failed,
            };
            let shut = next(removed.0, EventModel::Done);
            let ended = next(shut.0, EventModel::Done);
            &&& state.worktree matches Some(worktree_path) ==> failed.1
                == (ActionModel::RemoveWorktree { worktree_path })
            &&& removed.1 == (ActionModel::ShutdownAgent { agent_id })
            &&& shut.1 == ActionModel::SendEnd(failed_end(state.call))
            &&& ended.1 == ActionModel::Finish(Err(error))
        }),
{
}

/// A call is admitted only where the caller is a member of no team, the model and the input
/// are in order, and the depth is within its limit.
pub proof fn law_only_sound_calls_are_admitted(request: RequestModel, checks: ChecksModel)
    ensures
        admitted(request, checks) is Ok <==> {
            &&& checks.team == Ok::<Option<Seq<char>>, ErrorModel>(None)
            &&& checks.model_provider is Ok
            &&& checks.model is Ok
            &&& checks.prompt is Ok
            &&& !checks.depth_exceeded
        },
        admitted(request, checks) matches Ok(call) ==> call.role == role_of(request.agent_type)
            && call.depth == checks.child_depth,
{
}

/// How a call goes from the spawned thread to its answer: the hooks run, what they add is
/// given to the agent, it gets its input, then the worktree if there is one, the cleanup is
/// started for one in the background, the end is reported, and the answer names the agent.
pub proof fn law_course_of_a_spawned_agent(
    state: SpawnModel,
    agent_id: Seq<char>,
    context: Seq<Seq<char>>,
    names: Option<(Option<Seq<char>>, Option<Seq<char>>)>,
    status: StatusModel,
)
    requires
        state.phase is AwaitThread || state.phase is AwaitRespawn,
    ensures
        ({
            let hooked = next(state, EventModel::ThreadSpawned(Ok(agent_id)));
            let told = next(hooked.0, EventModel::HookContext(context));
            let given = if context.len() > 0 {
                next(told.0, EventModel::Done)
            } else {
                told
            };
            let taken = next(given.0, EventModel::Attempted(Ok(())));
            let housed = if state.worktree is Some {
                next(taken.0, EventModel::Done)
            } else {
                taken
            };
            let watched = if state.call.background {
                next(housed.0, EventModel::Done)
            } else {
                housed
            };
            let named = next(watched.0, EventModel::Names(names));
            let seen = next(named.0, EventModel::Status(status));
            let ended = next(seen.0, EventModel::Done);
            &&& hooked.1 == (ActionModel::RunStartHooks {
                agent_id,
                agent_type: match state.call.role {
                    Some(role) => role,
                    None => "default"@,
                },
            })
            &&& context.len() > 0 ==> told.1 == (ActionModel::InjectMessage {
                agent_id,
                message: joined(context, "\n\n"@),
            })
            &&& given.1 == (ActionModel::SendInput { agent_id })
            &&& state.worktree matches Some(worktree_path) ==> taken.1
                == (ActionModel::RegisterWorktree { agent_id, worktree_path })
            &&& state.call.background ==> housed.1 == (ActionModel::StartBackgroundCleanup {
                agent_id,
            })
            &&& watched.1 == (ActionModel::ReadNames { agent_id })
            &&& named.1 == (ActionModel::ReadStatus { agent_id })
            &&& seen.1 == ActionModel::SendEnd(
                EndModel {
                    call_id: state.call.call_id,
                    sender_thread_id: state.call.sender_thread_id,
                    new_thread_id: Some(agent_id),
                    new_agent_nickname: match names {
                        Some((nickname, _)) => nickname,
                        None => None,
                    },
                    new_agent_role: match names {
                        Some((_, role)) => role,
                        None => None,
                    },
                    prompt: state.call.prompt,
                    status: Some(status),
                },
            )
            &&& ended.0.phase is Finished
            &&& ended.1 == ActionModel::Finish(answer_result(rendered_json(answer_tree(agent_id))))
        }),
{
}

/// Each phase waits for the answer to the action that led to it, whatever that answer holds,
/// and a call that has ended waits for nothing.
pub proof fn law_what_a_call_waits_for(phase: PhaseModel, event: EventModel)
    ensures
        phase is AwaitBegin || phase is AwaitSpawnOverrides || phase is AwaitInjected
            || phase is AwaitRegistered || phase is AwaitCleanup || phase is AwaitEnd
            || phase is AwaitRemoved || phase is AwaitShutdown || phase is AwaitFailedEnd
            ==> awaited(phase, event) == (event is Done),
        phase is AwaitConfig || phase is AwaitModelOverrides || phase is AwaitRuntimeOverrides
            || phase is AwaitInput ==> awaited(phase, event) == (event is Attempted),
        phase is AwaitRole ==> awaited(phase, event) == (event is RoleApplied),
        phase is AwaitWorktree ==> awaited(phase, event) == (event is WorktreeCreated),
        phase is AwaitThread || phase is AwaitRespawn ==> awaited(phase, event) == (
        event is ThreadSpawned),
        phase is AwaitReaped ==> awaited(phase, event) == (event is Reaped),
        phase is AwaitHookContext ==> awaited(phase, event) == (event is HookContext),
        phase is AwaitNames ==> awaited(phase, event) == (event is Names),
        phase is AwaitStatus ==> awaited(phase, event) == (event is Status),
        phase is Finished ==> !awaited(phase, event),
{
}

/// The role of a new agent is what the call names without the white space around it, whatever
/// that is, and there is none where that leaves nothing.
pub proof fn law_the_role_is_the_trimmed_name(name: Seq<char>)
    ensures
        role_of(None) is None,
        trimmed(name).len() == 0 ==> role_of(Some(name)) is None,
        trimmed(name).len() > 0 ==> role_of(Some(name)) == Some(trimmed(name)),
{
}

/// Why a call is refused: the first reason counts, in the order team, model provider, model,
/// input and depth. A call that nothing speaks against is admitted with all that it asks for.
pub proof fn law_why_a_call_is_refused(request: RequestModel, checks: ChecksModel, error: ErrorModel)
    ensures
        ({
            let admission = admitted(request, checks);
            let no_team = checks.team == Ok::<Option<Seq<char>>, ErrorModel>(None);
            &&& checks.team == Err::<Option<Seq<char>>, ErrorModel>(error) ==> admission == Err::<
                CallModel,
                ErrorModel,
            >(error)
            &&& checks.team matches Ok(Some(team_id)) ==> admission == Err::<CallModel, ErrorModel>(
                ErrorModel::RespondToModel(
                    "spawn_agent is disabled for agent team teammates (team `"@ + team_id
                        + "`). Ask the team lead to spawn agents."@,
                ),
            )
            &&& no_team && checks.model_provider == Err::<Option<Seq<char>>, ErrorModel>(error)
                ==> admission == Err::<CallModel, ErrorModel>(error)
            &&& no_team && checks.model_provider is Ok && checks.model == Err::<
                Option<Seq<char>>,
                ErrorModel,
            >(error) ==> admission == Err::<CallModel, ErrorModel>(error)
            &&& no_team && checks.model_provider is Ok && checks.model is Ok && checks.prompt
                == Err::<Seq<char>, ErrorModel>(error) ==> admission == Err::<
                CallModel,
                ErrorModel,
            >(error)
            &&& no_team && checks.model_provider is Ok && checks.model is Ok && checks.prompt is Ok
                && checks.depth_exceeded ==> admission == Err::<CallModel, ErrorModel>(
                ErrorModel::RespondToModel("Agent depth limit reached. Solve the task yourself."@),
            )
            &&& no_team && checks.model_provider is Ok && checks.model is Ok && checks.prompt is Ok
                && !checks.depth_exceeded ==> admission == Ok::<CallModel, ErrorModel>(
                CallModel {
                    call_id: request.call_id,
                    sender_thread_id: request.sender_thread_id,
                    prompt: checks.prompt->Ok_0,
                    role: role_of(request.agent_type),
                    model_provider: checks.model_provider->Ok_0,
                    model: checks.model->Ok_0,
                    depth: checks.child_depth,
                    fork_context: request.fork_context,
                    use_worktree: request.worktree,
                    background: request.background,
                },
            )
        }),
{
}

/// A new agent is configured as the call asks: for its depth, with its role, with the model
/// and the provider that were asked for, and it runs where it was asked to: in a worktree of
/// its own or in the directory of its parent, as a fork of the call or not.
pub proof fn law_an_agent_is_configured_as_asked(
    request: RequestModel,
    checks: ChecksModel,
    worktree_path: Seq<char>,
)
    requires
        admitted(request, checks) is Ok,
    ensures
        ({
            let begun = SpawnModel {
                call: admitted(request, checks)->Ok_0,
                worktree: None,
                phase: PhaseModel::AwaitBegin,
            };
            let built = next(begun, EventModel::Done);
            let cast = next(built.0, EventModel::Attempted(Ok(())));
            let modelled = next(cast.0, EventModel::RoleApplied(Ok(())));
            let bound = next(modelled.0, EventModel::Attempted(Ok(())));
            let limited = next(bound.0, EventModel::Attempted(Ok(())));
            let configured = next(limited.0, EventModel::Done);
            let ready = if request.worktree {
                next(configured.0, EventModel::WorktreeCreated(Ok(worktree_path)))
            } else {
                configured
            };
            &&& built.1 == (ActionModel::BuildConfig { depth: checks.child_depth })
            &&& cast.1 == (ActionModel::ApplyRole { role: role_of(request.agent_type) })
            &&& modelled.1 == (ActionModel::ApplyModelOverrides {
                model_provider: checks.model_provider->Ok_0,
                model: checks.model->Ok_0,
            })
            &&& bound.1 is ApplyRuntimeOverrides
            &&& limited.1 == (ActionModel::ApplySpawnOverrides { depth: checks.child_depth })
            &&& request.worktree ==> configured.1 is CreateWorktree
            &&& ready.1 == (ActionModel::SpawnThread {
                thread: ThreadModel {
                    cwd: if request.worktree {
                        Some(worktree_path)
                    } else {
                        None
                    },
                    parent_thread_id: request.sender_thread_id,
                    depth: checks.child_depth,
                    role: role_of(request.agent_type),
                },
                fork_parent_spawn_call_id: if request.fork_context {
                    Some(request.call_id)
                } else {
                    None
                },
            })
            &&& ready.0.phase is AwaitThread
            &&& ready.0.call == begun.call
            &&& ready.0.worktree == if request.worktree {
                Some(worktree_path)
            } else {
                None
            }
        }),
{
}

/// What a call does where its configuration fails: it ends at once, with the error, and with
/// the message for the model where it is the role that fails.
pub proof fn law_what_a_failed_configuration_ends_with(
    state: SpawnModel,
    error: ErrorModel,
    message: Seq<char>,
)
    ensures
        state.phase is AwaitConfig || state.phase is AwaitModelOverrides
            || state.phase is AwaitRuntimeOverrides ==> next(
            state,
            EventModel::Attempted(Err(error)),
        ).1 == ActionModel::Finish(Err(error)),
        state.phase is AwaitRole ==> next(state, EventModel::RoleApplied(Err(message))).1
            == ActionModel::Finish(Err(ErrorModel::RespondToModel(message))),
{
}

/// The end of a call that failed names the call and its prompt, and no agent.
pub proof fn law_the_end_of_a_failed_call(call: CallModel)
    ensures
        failed_end(call) == (EndModel {
            call_id: call.call_id,
            sender_thread_id: call.sender_thread_id,
            new_thread_id: None,
            new_agent_nickname: None,
            new_agent_role: None,
            prompt: call.prompt,
            status: None,
        }),
{
}

/// Whether an event tells that a call has come to spawn no thread, and why.
pub open spec fn tells_failure(state: SpawnModel, event: EventModel, error: ErrorModel) -> bool {
    match (state.phase, event) {
        (PhaseModel::AwaitThread, EventModel::ThreadSpawned(Err(failure))) => failure.error == error
            && !failure.limit_reached,
        (PhaseModel::AwaitRespawn, EventModel::ThreadSpawned(Err(failure))) => failure.error
            == error,
        (PhaseModel::AwaitReaped { error: limit }, EventModel::Reaped(slots)) => limit == error
            && slots == 0,
        (PhaseModel::AwaitWorktree, EventModel::WorktreeCreated(Err(failure))) => failure == error
            && state.worktree is None,
        _ => false,
    }
}

/// What a call does where its thread cannot be spawned, or its worktree cannot be made: it
/// removes the worktree that it made, reports the end, and ends with the very error.
pub proof fn law_a_thread_that_cannot_be_spawned(
    state: SpawnModel,
    event: EventModel,
    error: ErrorModel,
)
    requires
        tells_failure(state, event, error),
    ensures
        ({
            let failed = next(state, event);
            let removed = if state.worktree is Some {
                next(failed.0, EventModel::Done)
            } else {
                failed
            };
            let ended = next(removed.0, EventModel::Done);
            &&& state.worktree matches Some(worktree_path) ==> failed.1
                == (ActionModel::RemoveWorktree { worktree_path })
            &&& removed.1 == ActionModel::SendEnd(
                EndModel {
                    call_id: state.call.call_id,
                    sender_thread_id: state.call.sender_thread_id,
                    new_thread_id: None,
                    new_agent_nickname: None,
                    new_agent_role: None,
                    prompt: state.call.prompt,
                    status: None,
                },
            )
            &&& ended.1 == ActionModel::Finish(Err(error))
            &&& ended.0.phase is Finished
        }),
{
}

/// What a call does where there are too many agents: it asks for one slot, and where any was
/// freed it tries once more, for the same thread, with no fork.
pub proof fn law_a_slot_is_asked_for(state: SpawnModel, error: ErrorModel, slots: usize)
    requires
        state.phase is AwaitThread,
        slots > 0,
    ensures
        ({
            let full = next(
                state,
                EventModel::ThreadSpawned(Err(FailureModel { limit_reached: true, error })),
            );
            let again = next(full.0, EventModel::Reaped(slots));
            &&& full.1 == (ActionModel::ReapFinishedAgents { slots: 1 })
            &&& full.0.phase == (PhaseModel::AwaitReaped { error })
            &&& again.1 == (ActionModel::RespawnThread {
                thread: ThreadModel {
                    cwd: state.worktree,
                    parent_thread_id: state.call.sender_thread_id,
                    depth: state.call.depth,
                    role: state.call.role,
                },
            })
            &&& again.0 == (SpawnModel { phase: PhaseModel::AwaitRespawn, ..state })
        }),
{
}

/// The answer of a call is an object that names the agent and nothing else, as text, and
/// counts as a success; one that cannot be written is fatal.
pub proof fn law_the_answer_names_the_agent(
    agent_id: Seq<char>,
    text: Seq<char>,
    error: Seq<char>,
)
    ensures
        answer_tree(agent_id) == JsonTree::Object(map!["agent_id"@ => JsonTree::Text(agent_id)]),
        answer_result(Ok(text)) == Ok::<OutputModel, ErrorModel>(
            OutputModel { text, success: Some(true) },
        ),
        answer_result(Err(error)) == Err::<OutputModel, ErrorModel>(
            ErrorModel::Fatal("failed to serialize spawn_agent result: "@ + error),
        ),
{
    let entries = seq![("agent_id"@, JsonTree::Text(agent_id))];
    reveal_with_fuel(fields, 2);
    assert(entries.drop_last() =~= seq![]);
}

/// A request and what is known about it hold what their models hold, each under its own name.
pub proof fn law_what_a_request_holds(request: SpawnRequest, checks: SpawnChecks)
    ensures
        request@.call_id == request.call_id@,
        request@.sender_thread_id == request.sender_thread_id@,
        request@.agent_type == opt_text(request.agent_type),
        request@.fork_context == request.fork_context,
        request@.worktree == request.worktree,
        request@.background == request.background,
        checks.team matches Ok(team) ==> checks@.team == Ok::<Option<Seq<char>>, ErrorModel>(
            opt_text(team),
        ),
        checks.team matches Err(error) ==> checks@.team == Err::<Option<Seq<char>>, ErrorModel>(
            error@,
        ),
        checks.model_provider matches Ok(model_provider) ==> checks@.model_provider == Ok::<
            Option<Seq<char>>,
            ErrorModel,
        >(opt_text(model_provider)),
        checks.model_provider matches Err(error) ==> checks@.model_provider == Err::<
            Option<Seq<char>>,
            ErrorModel,
        >(error@),
        checks.model matches Ok(model) ==> checks@.model == Ok::<Option<Seq<char>>, ErrorModel>(
            opt_text(model),
        ),
        checks.model matches Err(error) ==> checks@.model == Err::<Option<Seq<char>>, ErrorModel>(
            error@,
        ),
        checks.prompt matches Ok(prompt) ==> checks@.prompt == Ok::<Seq<char>, ErrorModel>(
            prompt@,
        ),
        checks.prompt matches Err(error) ==> checks@.prompt == Err::<Seq<char>, ErrorModel>(
            error@,
        ),
        checks@.child_depth == checks.child_depth,
        checks@.depth_exceeded == checks.depth_exceeded,
{
}

/// A call that has been admitted, the thread of its agent, its end and its failure hold what
/// their models hold, each under its own name.
pub proof fn law_what_a_call_holds(
    call: SpawnCall,
    thread: ThreadSpec,
    end: SpawnEnd,
    failure: SpawnFailure,
)
    ensures
        call@.call_id == call.call_id@,
        call@.sender_thread_id == call.sender_thread_id@,
        call@.prompt == call.prompt@,
        call@.role == opt_text(call.role),
        call@.model_provider == opt_text(call.model_provider),
        call@.model == opt_text(call.model),
        call@.depth == call.depth,
        call@.fork_context == call.fork_context,
        call@.use_worktree == call.use_worktree,
        call@.background == call.background,
        thread@.cwd == opt_text(thread.cwd),
        thread@.parent_thread_id == thread.parent_thread_id@,
        thread@.depth == thread.depth,
        thread@.role == opt_text(thread.role),
        end@.call_id == end.call_id@,
        end@.sender_thread_id == end.sender_thread_id@,
        end@.new_thread_id == opt_text(end.new_thread_id),
        end@.new_agent_nickname == opt_text(end.new_agent_nickname),
        end@.new_agent_role == opt_text(end.new_agent_role),
        end@.prompt == end.prompt@,
        end@.status == opt_status(end.status),
        failure@.limit_reached == failure.limit_reached,
        failure@.error == failure.error@,
{
}

/// An action is the one that its model is, and holds what its model holds.
pub proof fn law_what_an_action_holds(action: SpawnAction)
    ensures
        action@ matches ActionModel::SendBegin { call_id, sender_thread_id, prompt } ==> (action
            matches SpawnAction::SendBegin { call_id: call, sender_thread_id: sender, prompt: text }
            && call@ == call_id && sender@ == sender_thread_id && text@ == prompt),
        action@ matches ActionModel::BuildConfig { depth } ==> (action
            matches SpawnAction::BuildConfig { depth: held } && held == depth),
        action@ matches ActionModel::ApplyRole { role } ==> (action matches SpawnAction::ApplyRole {
            role: held,
        } && opt_text(held) == role),
        action@ matches ActionModel::ApplyModelOverrides { model_provider, model } ==> (action
            matches SpawnAction::ApplyModelOverrides { model_provider: provider, model: held }
            && opt_text(provider) == model_provider && opt_text(held) == model),
        action@ is ApplyRuntimeOverrides ==> action is ApplyRuntimeOverrides,
        action@ matches ActionModel::ApplySpawnOverrides { depth } ==> (action
            matches SpawnAction::ApplySpawnOverrides { depth: held } && held == depth),
        action@ is CreateWorktree ==> action is CreateWorktree,
        action@ matches ActionModel::SpawnThread { thread, fork_parent_spawn_call_id } ==> (action
            matches SpawnAction::SpawnThread {
            thread: held,
            fork_parent_spawn_call_id: forked,
        } && held@ == thread && opt_text(forked) == fork_parent_spawn_call_id),
        action@ matches ActionModel::ReapFinishedAgents { slots } ==> (action
            matches SpawnAction::ReapFinishedAgents { slots: held } && held == slots),
        action@ matches ActionModel::RespawnThread { thread } ==> (action
            matches SpawnAction::RespawnThread { thread: held } && held@ == thread),
        action@ matches ActionModel::SendEnd(end) ==> (action matches SpawnAction::SendEnd(held)
            && held@ == end),
        action@ matches ActionModel::Finish(result) ==> (action matches SpawnAction::Finish(held)
            && output_result(held) == result),
{
}

/// An action on an agent or its worktree is the one that its model is, and is about the agent
/// and the worktree that its model is about.
pub proof fn law_whom_an_action_is_about(action: SpawnAction)
    ensures
        action@ matches ActionModel::RunStartHooks { agent_id, agent_type } ==> (action
            matches SpawnAction::RunStartHooks { agent_id: agent, agent_type: role } && agent@
            == agent_id && role@ == agent_type),
        action@ matches ActionModel::InjectMessage { agent_id, message } ==> (action
            matches SpawnAction::InjectMessage { agent_id: agent, message: text } && agent@
            == agent_id && text@ == message),
        action@ matches ActionModel::SendInput { agent_id } ==> (action
            matches SpawnAction::SendInput { agent_id: agent } && agent@ == agent_id),
        action@ matches ActionModel::RemoveWorktree { worktree_path } ==> (action
            matches SpawnAction::RemoveWorktree { worktree_path: path } && path@ == worktree_path),
        action@ matches ActionModel::ShutdownAgent { agent_id } ==> (action
            matches SpawnAction::ShutdownAgent { agent_id: agent } && agent@ == agent_id),
        action@ matches ActionModel::RegisterWorktree { agent_id, worktree_path } ==> (action
            matches SpawnAction::RegisterWorktree { agent_id: agent, worktree_path: path } && agent@
            == agent_id && path@ == worktree_path),
        action@ matches ActionModel::StartBackgroundCleanup { agent_id } ==> (action
            matches SpawnAction::StartBackgroundCleanup { agent_id: agent } && agent@ == agent_id),
        action@ matches ActionModel::ReadNames { agent_id } ==> (action
            matches SpawnAction::ReadNames { agent_id: agent } && agent@ == agent_id),
        action@ matches ActionModel::ReadStatus { agent_id } ==> (action
            matches SpawnAction::ReadStatus { agent_id: agent } && agent@ == agent_id),
{
}

/// An event is modelled as the one that it is, with what it holds.
pub proof fn law_what_an_event_holds(event: SpawnEvent)
    ensures
        event is Done ==> event@ is Done,
        event matches SpawnEvent::Attempted(result) ==> event@ == EventModel::Attempted(
            result_model(result),
        ),
        event matches SpawnEvent::RoleApplied(result) ==> event@ == EventModel::RoleApplied(
            stored_result(result),
        ),
        event matches SpawnEvent::WorktreeCreated(Ok(path)) ==> event@
            == EventModel::WorktreeCreated(Ok(path@)),
        event matches SpawnEvent::WorktreeCreated(Err(error)) ==> event@
            == EventModel::WorktreeCreated(Err(error@)),
        event matches SpawnEvent::ThreadSpawned(Ok(agent_id)) ==> event@
            == EventModel::ThreadSpawned(Ok(agent_id@)),
        event matches SpawnEvent::ThreadSpawned(Err(failure)) ==> event@
            == EventModel::ThreadSpawned(Err(failure@)),
        event matches SpawnEvent::Reaped(slots) ==> event@ == EventModel::Reaped(slots),
        event matches SpawnEvent::HookContext(context) ==> event@ == EventModel::HookContext(
            texts(context@),
        ),
        event matches SpawnEvent::Names(None) ==> event@ == EventModel::Names(None),
        event matches SpawnEvent::Names(Some((nickname, role))) ==> event@ == EventModel::Names(
            Some((opt_text(nickname), opt_text(role))),
        ),
        event matches SpawnEvent::Status(status) ==> event@ == EventModel::Status(status@),
{
}

} // verus!
