//! The tool `wait_team`: waiting for the members of a team, and what is reported about them.

use vstd::pervasive::arbitrary;
use vstd::pervasive::unreached;
use vstd::prelude::*;
use vstd::string::*;

use crate::context::ErrorModel;
use crate::context::FunctionCallError;
use crate::json::fields;
use crate::json::named_trees_of;
use crate::json::parsed_json;
use crate::json::trees_of;
use crate::json::Json;
use crate::json::JsonTree;
use crate::multi_agents::output_result;
use crate::multi_agents::AgentStatus;
use crate::multi_agents::OutputModel;
use crate::multi_agents::StatusModel;
use crate::multi_agents::TextOutput;
use crate::text::opt_text;
use crate::text::same_text;
use crate::text::texts;
use crate::tool_input::arguments_value;
use crate::tool_input::lemma_three_fields;
use crate::tool_input::object;
use crate::tool_input::parsed_or_text;
use crate::tool_input::text_result;

verus! {

/// Whether a call waits for one member of the team or for all of them.
#[derive(Clone, Copy, Debug, PartialEq, Eq, Structural)]
pub enum WaitTeamMode {
    Any,
    All,
}

/// A member of a team.
#[derive(Debug, PartialEq, Eq)]
pub struct TeamMember {
    pub name: String,
    pub agent_id: String,
}

/// A team.
#[derive(Debug, PartialEq, Eq)]
pub struct Team {
    pub team_id: String,
    pub members: Vec<TeamMember>,
}

/// What a call of `wait_team` asks for. `call_id` is the one under which it is reported.
#[derive(Debug)]
pub struct WaitRequest {
    pub sender_thread_id: String,
    pub call_id: String,
    pub team: Result<Team, FunctionCallError>,
    pub mode: Option<WaitTeamMode>,
    pub timeout_ms: Result<i64, FunctionCallError>,
}

/// What came of waiting: the statuses that were seen, the agent that ended the waiting, and
/// whether time ran out.
#[derive(Debug, PartialEq, Eq)]
pub struct WaitOutcome {
    pub statuses: Vec<(String, AgentStatus)>,
    pub triggered_id: Option<String>,
    pub timed_out: bool,
}

/// Why waiting failed, and for which agent.
#[derive(Debug, PartialEq, Eq)]
pub struct WaitFailure {
    pub agent_id: String,
    pub error: FunctionCallError,
}

/// The member that ended the waiting.
#[derive(Debug, PartialEq, Eq)]
pub struct WaitTeamTriggeredMember {
    pub name: String,
    pub agent_id: String,
}

/// A member and its status.
#[derive(Debug, PartialEq, Eq)]
pub struct WaitTeamMemberStatus {
    pub name: String,
    pub agent_id: String,
    pub state: AgentStatus,
}

/// The answer to a call of `wait_team`.
#[derive(Debug, PartialEq, Eq)]
pub struct WaitTeamResult {
    pub completed: bool,
    pub mode: WaitTeamMode,
    pub triggered_member: Option<WaitTeamTriggeredMember>,
    pub member_statuses: Vec<WaitTeamMemberStatus>,
}

/// How the waiting ended: the members to list, and the statuses that are known, of which the
/// last one for an agent counts.
#[derive(Debug, PartialEq, Eq)]
pub struct WaitEnd {
    pub sender_thread_id: String,
    pub call_id: String,
    pub members: Vec<TeamMember>,
    pub statuses: Vec<(String, AgentStatus)>,
}

/// What the caller is to do next.
#[derive(Debug, PartialEq, Eq)]
pub enum WaitAction {
    /// Report that the waiting begins, and for which members.
    SendBegin {
        sender_thread_id: String,
        call_id: String,
        receiver_thread_ids: Vec<String>,
        members: Vec<TeamMember>,
    },
    /// Wait for the agents.
    WaitForAgents { agent_ids: Vec<String>, timeout_ms: i64, mode: WaitTeamMode },
    /// Read the status of an agent.
    ReadStatus { agent_id: String },
    /// Report how the waiting ended.
    SendEnd(WaitEnd),
    /// Run the hooks for a member that is idle.
    RunIdleHooks { team_id: String, member_name: String },
    /// Write the answer as JSON text: `answer_json`, with the keys in the order of the fields.
    WriteAnswer(WaitTeamResult),
    /// The call has ended.
    Finish(Result<TextOutput, FunctionCallError>),
}

/// What came of the last action.
#[derive(Debug, PartialEq, Eq)]
pub enum WaitEvent {
    Done,
    Waited(Result<WaitOutcome, WaitFailure>),
    Status(AgentStatus),
    /// The hooks ran. A message is an objection.
    IdleHooksRan(Option<String>),
    AnswerWritten(Result<String, String>),
}

/// How far a call has come. `member` is the position of the member whose status is read,
/// `entry` that of the status for which hooks run.
#[derive(Debug)]
pub enum WaitPhase {
    AwaitBegin { timeout_ms: i64 },
    AwaitAgents,
    AwaitFailedStatus { agent_id: String, error: FunctionCallError },
    AwaitFailedEnd { error: FunctionCallError },
    AwaitMemberStatus {
        outcome: WaitOutcome,
        reported: Vec<(String, AgentStatus)>,
        member: usize,
    },
    AwaitEnd { outcome: WaitOutcome, reported: Vec<(String, AgentStatus)> },
    AwaitIdle { outcome: WaitOutcome, reported: Vec<(String, AgentStatus)>, entry: usize },
    AwaitAnswer,
    Finished,
}

/// The model of `TeamMember`, and of `WaitTeamTriggeredMember`.
pub ghost struct MemberModel {
    pub name: Seq<char>,
    pub agent_id: Seq<char>,
}

/// The model of `WaitTeamMemberStatus`.
pub ghost struct MemberStatusModel {
    pub name: Seq<char>,
    pub agent_id: Seq<char>,
    pub state: StatusModel,
}

/// The model of `WaitOutcome`.
pub ghost struct OutcomeModel {
    pub statuses: Seq<(Seq<char>, StatusModel)>,
    pub triggered_id: Option<Seq<char>>,
    pub timed_out: bool,
}

/// The model of `WaitFailure`.
pub ghost struct FailureModel {
    pub agent_id: Seq<char>,
    pub error: ErrorModel,
}

/// The model of `WaitTeamResult`.
pub ghost struct AnswerModel {
    pub completed: bool,
    pub mode: WaitTeamMode,
    pub triggered_member: Option<MemberModel>,
    pub member_statuses: Seq<MemberStatusModel>,
}

/// The model of `WaitEnd`.
pub ghost struct EndModel {
    pub sender_thread_id: Seq<char>,
    pub call_id: Seq<char>,
    pub members: Seq<MemberModel>,
    pub statuses: Map<Seq<char>, StatusModel>,
}

/// The model of `WaitAction`.
pub ghost enum ActionModel {
    SendBegin {
        sender_thread_id: Seq<char>,
        call_id: Seq<char>,
        receiver_thread_ids: Seq<Seq<char>>,
        members: Seq<MemberModel>,
    },
    WaitForAgents { agent_ids: Seq<Seq<char>>, timeout_ms: i64, mode: WaitTeamMode },
    ReadStatus { agent_id: Seq<char> },
    SendEnd(EndModel),
    RunIdleHooks { team_id: Seq<char>, member_name: Seq<char> },
    WriteAnswer(AnswerModel),
    Finish(Result<OutputModel, ErrorModel>),
}

/// The model of `WaitEvent`.
pub ghost enum EventModel {
    Done,
    Waited(Result<OutcomeModel, FailureModel>),
    Status(StatusModel),
    IdleHooksRan(Option<Seq<char>>),
    AnswerWritten(Result<Seq<char>, Seq<char>>),
}

/// The model of `WaitPhase`.
pub ghost enum PhaseModel {
    AwaitBegin { timeout_ms: i64 },
    AwaitAgents,
    AwaitFailedStatus { agent_id: Seq<char>, error: ErrorModel },
    AwaitFailedEnd { error: ErrorModel },
    AwaitMemberStatus {
        outcome: OutcomeModel,
        reported: Map<Seq<char>, StatusModel>,
        member: nat,
    },
    AwaitEnd { outcome: OutcomeModel, reported: Map<Seq<char>, StatusModel> },
    AwaitIdle { outcome: OutcomeModel, reported: Map<Seq<char>, StatusModel>, entry: nat },
    AwaitAnswer,
    Finished,
}

/// What a list of members holds.
pub open spec fn member_models(members: Seq<TeamMember>) -> Seq<MemberModel> {
    Seq::new(members.len(), |i: int| members[i]@)
}

/// The agents that the members of a team are.
pub open spec fn agent_ids(members: Seq<MemberModel>) -> Seq<Seq<char>> {
    Seq::new(members.len(), |i: int| members[i].agent_id)
}

/// What a list of statuses holds.
pub open spec fn entry_models(entries: Seq<(String, AgentStatus)>) -> Seq<
    (Seq<char>, StatusModel),
> {
    Seq::new(entries.len(), |i: int| (entries[i].0@, entries[i].1@))
}

/// The statuses by agent, of which the last one for an agent counts.
pub open spec fn status_map(entries: Seq<(Seq<char>, StatusModel)>) -> Map<Seq<char>, StatusModel>
    decreases entries.len(),
{
    if entries.len() == 0 {
        Map::empty()
    } else {
        status_map(entries.drop_last()).insert(entries.last().0, entries.last().1)
    }
}

impl View for TeamMember {
    type V = MemberModel;

    open spec fn view(&self) -> MemberModel {
        MemberModel { name: self.name@, agent_id: self.agent_id@ }
    }
}

impl View for WaitTeamTriggeredMember {
    type V = MemberModel;

    open spec fn view(&self) -> MemberModel {
        MemberModel { name: self.name@, agent_id: self.agent_id@ }
    }
}

impl View for WaitTeamMemberStatus {
    type V = MemberStatusModel;

    open spec fn view(&self) -> MemberStatusModel {
        MemberStatusModel { name: self.name@, agent_id: self.agent_id@, state: self.state@ }
    }
}

impl View for WaitOutcome {
    type V = OutcomeModel;

    open spec fn view(&self) -> OutcomeModel {
        OutcomeModel {
            statuses: entry_models(self.statuses@),
            triggered_id: opt_text(self.triggered_id),
            timed_out: self.timed_out,
        }
    }
}

impl View for WaitTeamResult {
    type V = AnswerModel;

    open spec fn view(&self) -> AnswerModel {
        AnswerModel {
            completed: self.completed,
            mode: self.mode,
            triggered_member: match self.triggered_member {
                Some(member) => Some(member@),
                None => None,
            },
            member_statuses: Seq::new(
                self.member_statuses@.len(),
                |i: int| self.member_statuses@[i]@,
            ),
        }
    }
}

impl View for WaitEnd {
    type V = EndModel;

    open spec fn view(&self) -> EndModel {
        EndModel {
            sender_thread_id: self.sender_thread_id@,
            call_id: self.call_id@,
            members: member_models(self.members@),
            statuses: status_map(entry_models(self.statuses@)),
        }
    }
}

impl View for WaitAction {
    type V = ActionModel;

    open spec fn view(&self) -> ActionModel {
        match self {
            WaitAction::SendBegin { sender_thread_id, call_id, receiver_thread_ids, members } =>
                ActionModel::SendBegin {
                sender_thread_id: sender_thread_id@,
                call_id: call_id@,
                receiver_thread_ids: texts(receiver_thread_ids@),
                members: member_models(members@),
            },
            WaitAction::WaitForAgents { agent_ids, timeout_ms, mode } =>
                ActionModel::WaitForAgents {
                agent_ids: texts(agent_ids@),
                timeout_ms: *timeout_ms,
                mode: *mode,
            },
            WaitAction::ReadStatus { agent_id } => ActionModel::ReadStatus { agent_id: agent_id@ },
            WaitAction::SendEnd(end) => ActionModel::SendEnd(end@),
            WaitAction::RunIdleHooks { team_id, member_name } => ActionModel::RunIdleHooks {
                team_id: team_id@,
                member_name: member_name@,
            },
            WaitAction::WriteAnswer(answer) => ActionModel::WriteAnswer(answer@),
            WaitAction::Finish(result) => ActionModel::Finish(output_result(*result)),
        }
    }
}

impl View for WaitEvent {
    type V = EventModel;

    open spec fn view(&self) -> EventModel {
        match self {
            WaitEvent::Done => EventModel::Done,
            WaitEvent::Waited(result) => EventModel::Waited(
                match result {
                    Ok(outcome) => Ok(outcome@),
                    Err(failure) => Err(
                        FailureModel { agent_id: failure.agent_id@, error: failure.error@ },
                    ),
                },
            ),
            WaitEvent::Status(status) => EventModel::Status(status@),
            WaitEvent::IdleHooksRan(objection) => EventModel::IdleHooksRan(opt_text(*objection)),
            WaitEvent::AnswerWritten(written) => EventModel::AnswerWritten(text_result(*written)),
        }
    }
}

impl View for WaitPhase {
    type V = PhaseModel;

    open spec fn view(&self) -> PhaseModel {
        match self {
            WaitPhase::AwaitBegin { timeout_ms } => PhaseModel::AwaitBegin {
                timeout_ms: *timeout_ms,
            },
            WaitPhase::AwaitAgents => PhaseModel::AwaitAgents,
            WaitPhase::AwaitFailedStatus { agent_id, error } => PhaseModel::AwaitFailedStatus {
                agent_id: agent_id@,
                error: error@,
            },
            WaitPhase::AwaitFailedEnd { error } => PhaseModel::AwaitFailedEnd { error: error@ },
            WaitPhase::AwaitMemberStatus { outcome, reported, member } =>
                PhaseModel::AwaitMemberStatus {
                outcome: outcome@,
                reported: status_map(entry_models(reported@)),
                member: *member as nat,
            },
            WaitPhase::AwaitEnd { outcome, reported } => PhaseModel::AwaitEnd {
                outcome: outcome@,
                reported: status_map(entry_models(reported@)),
            },
            WaitPhase::AwaitIdle { outcome, reported, entry } => PhaseModel::AwaitIdle {
                outcome: outcome@,
                reported: status_map(entry_models(reported@)),
                entry: *entry as nat,
            },
            WaitPhase::AwaitAnswer => PhaseModel::AwaitAnswer,
            WaitPhase::Finished => PhaseModel::Finished,
        }
    }
}

/// A call of `wait_team` that has been admitted.
#[derive(Debug)]
pub struct WaitCall {
    pub sender_thread_id: String,
    pub call_id: String,
    pub team_id: String,
    pub members: Vec<TeamMember>,
    pub mode: WaitTeamMode,
}

/// The model of `WaitCall`.
pub ghost struct CallModel {
    pub sender_thread_id: Seq<char>,
    pub call_id: Seq<char>,
    pub team_id: Seq<char>,
    pub members: Seq<MemberModel>,
    pub mode: WaitTeamMode,
}

impl View for WaitCall {
    type V = CallModel;

    open spec fn view(&self) -> CallModel {
        CallModel {
            sender_thread_id: self.sender_thread_id@,
            call_id: self.call_id@,
            team_id: self.team_id@,
            members: member_models(self.members@),
            mode: self.mode,
        }
    }
}

/// A call of `wait_team` on its way.
#[derive(Debug)]
pub struct WaitTeam {
    call: WaitCall,
    phase: WaitPhase,
}

/// The model of `WaitTeam`.
pub ghost struct WaitModel {
    pub call: CallModel,
    pub phase: PhaseModel,
}

impl View for WaitTeam {
    type V = WaitModel;

    closed spec fn view(&self) -> WaitModel {
        WaitModel { call: self.call@, phase: self.phase@ }
    }
}

/// The model of `WaitRequest`.
pub ghost struct RequestModel {
    pub sender_thread_id: Seq<char>,
    pub call_id: Seq<char>,
    pub team: Result<(Seq<char>, Seq<MemberModel>), ErrorModel>,
    pub mode: Option<WaitTeamMode>,
    pub timeout_ms: Result<i64, ErrorModel>,
}

impl View for WaitRequest {
    type V = RequestModel;

    open spec fn view(&self) -> RequestModel {
        RequestModel {
            sender_thread_id: self.sender_thread_id@,
            call_id: self.call_id@,
            team: match self.team {
                Ok(team) => Ok((team.team_id@, member_models(team.members@))),
                Err(error) => Err(error@),
            },
            mode: self.mode,
            timeout_ms: match self.timeout_ms {
                Ok(timeout_ms) => Ok(timeout_ms),
                Err(error) => Err(error@),
            },
        }
    }
}

/// The message for a team without members.
pub open spec fn no_members_message(team_id: Seq<char>) -> Seq<char> {
    "team `"@ + team_id + "` has no members"@
}

/// Whether a call is admitted, as what, and how long it waits. Of several reasons to refuse
/// it, the first in this order counts: the team, its members, the time to wait. Without a
/// mode it waits for all members.
pub open spec fn admitted(request: RequestModel) -> Result<(CallModel, i64), ErrorModel> {
    match (request.team, request.timeout_ms) {
        (Err(error), _) => Err(error),
        (Ok((team_id, members)), timeout_ms) => if members.len() == 0 {
            Err(ErrorModel::RespondToModel(no_members_message(team_id)))
        } else {
            match timeout_ms {
                Err(error) => Err(error),
                Ok(timeout_ms) => Ok(
                    (
                        CallModel {
                            sender_thread_id: request.sender_thread_id,
                            call_id: request.call_id,
                            team_id,
                            members,
                            mode: match request.mode {
                                Some(mode) => mode,
                                None => WaitTeamMode::All,
                            },
                        },
                        timeout_ms,
                    ),
                ),
            }
        },
    }
}

/// Whether an event answers the action that a phase waits for.
pub open spec fn awaited(phase: PhaseModel, event: EventModel) -> bool {
    match phase {
        PhaseModel::AwaitBegin { .. } => event is Done,
        PhaseModel::AwaitAgents => event is Waited,
        PhaseModel::AwaitFailedStatus { .. } => event is Status,
        PhaseModel::AwaitFailedEnd { .. } => event is Done,
        PhaseModel::AwaitMemberStatus { .. } => event is Status,
        PhaseModel::AwaitEnd { .. } => event is Done,
        PhaseModel::AwaitIdle { .. } => event is IdleHooksRan,
        PhaseModel::AwaitAnswer => event is AnswerWritten,
        PhaseModel::Finished => false,
    }
}

/// A call at another phase.
pub open spec fn at(state: WaitModel, phase: PhaseModel) -> WaitModel {
    WaitModel { phase, ..state }
}

/// The position, from `from` on, of the first member that is the given agent, or the number
/// of members where none is.
pub open spec fn member_from(members: Seq<MemberModel>, agent_id: Seq<char>, from: nat) -> nat
    decreases members.len() - from,
{
    if from >= members.len() {
        members.len()
    } else if members[from as int].agent_id == agent_id {
        from
    } else {
        member_from(members, agent_id, from + 1)
    }
}

/// The first member that is the given agent.
pub open spec fn find_member(members: Seq<MemberModel>, agent_id: Seq<char>) -> Option<
    MemberModel,
> {
    let i = member_from(members, agent_id, 0);
    if i < members.len() {
        Some(members[i as int])
    } else {
        None
    }
}

/// The position, from `from` on, of the first member without a status, or the number of
/// members where all have one.
pub open spec fn unreported_from(
    members: Seq<MemberModel>,
    reported: Map<Seq<char>, StatusModel>,
    from: nat,
) -> nat
    decreases members.len() - from,
{
    if from >= members.len() {
        members.len()
    } else if !reported.contains_key(members[from as int].agent_id) {
        from
    } else {
        unreported_from(members, reported, from + 1)
    }
}

/// Whether a status tells that a member of the team is idle.
pub open spec fn tells_idle(
    members: Seq<MemberModel>,
    entry: (Seq<char>, StatusModel),
) -> bool {
    entry.1.is_final && find_member(members, entry.0) is Some
}

/// The position, from `from` on, of the first status that tells that a member is idle, or the
/// number of statuses where none does.
pub open spec fn idle_from(
    members: Seq<MemberModel>,
    statuses: Seq<(Seq<char>, StatusModel)>,
    from: nat,
) -> nat
    decreases statuses.len() - from,
{
    if from >= statuses.len() {
        statuses.len()
    } else if tells_idle(members, statuses[from as int]) {
        from
    } else {
        idle_from(members, statuses, from + 1)
    }
}

/// The statuses of the members of a team, in the order of the members.
pub open spec fn member_statuses(
    members: Seq<MemberModel>,
    reported: Map<Seq<char>, StatusModel>,
) -> Seq<MemberStatusModel> {
    Seq::new(
        members.len(),
        |i: int|
            MemberStatusModel {
                name: members[i].name,
                agent_id: members[i].agent_id,
                state: reported[members[i].agent_id],
            },
    )
}

/// The member that ended the waiting, which only a call that waits for one member names.
pub open spec fn triggered_member(call: CallModel, outcome: OutcomeModel) -> Option<MemberModel> {
    match (call.mode, outcome.triggered_id) {
        (WaitTeamMode::Any, Some(agent_id)) => find_member(call.members, agent_id),
        _ => None,
    }
}

/// Whether the waiting is complete: time has not run out, and a status was seen or, where the
/// call waits for all members, the status of each of them is final.
pub open spec fn completed(
    call: CallModel,
    outcome: OutcomeModel,
    reported: Map<Seq<char>, StatusModel>,
) -> bool {
    !outcome.timed_out && match call.mode {
        WaitTeamMode::Any => outcome.statuses.len() > 0,
        WaitTeamMode::All => forall|i: int|
            0 <= i < call.members.len() ==> reported[(
            #[trigger] call.members[i]).agent_id].is_final,
    }
}

/// The answer to a call.
pub open spec fn answer_model(
    call: CallModel,
    outcome: OutcomeModel,
    reported: Map<Seq<char>, StatusModel>,
) -> AnswerModel {
    AnswerModel {
        completed: completed(call, outcome, reported),
        mode: call.mode,
        triggered_member: triggered_member(call, outcome),
        member_statuses: member_statuses(call.members, reported),
    }
}

/// The end of the waiting.
pub open spec fn end_model(
    call: CallModel,
    members: Seq<MemberModel>,
    statuses: Map<Seq<char>, StatusModel>,
) -> EndModel {
    EndModel {
        sender_thread_id: call.sender_thread_id,
        call_id: call.call_id,
        members,
        statuses,
    }
}

/// A call that looks for the next member without a status, and reports the end of the waiting
/// where there is none.
pub open spec fn collected(
    state: WaitModel,
    outcome: OutcomeModel,
    reported: Map<Seq<char>, StatusModel>,
    from: nat,
) -> (WaitModel, ActionModel) {
    let members = state.call.members;
    let member = unreported_from(members, reported, from);
    if member < members.len() {
        (
            at(state, PhaseModel::AwaitMemberStatus { outcome, reported, member }),
            ActionModel::ReadStatus { agent_id: members[member as int].agent_id },
        )
    } else {
        (
            at(state, PhaseModel::AwaitEnd { outcome, reported }),
            ActionModel::SendEnd(end_model(state.call, members, reported)),
        )
    }
}

/// A call that looks for the next member that is idle, and answers where there is none.
pub open spec fn announced(
    state: WaitModel,
    outcome: OutcomeModel,
    reported: Map<Seq<char>, StatusModel>,
    from: nat,
) -> (WaitModel, ActionModel) {
    let entry = idle_from(state.call.members, outcome.statuses, from);
    if entry < outcome.statuses.len() {
        (
            at(state, PhaseModel::AwaitIdle { outcome, reported, entry }),
            ActionModel::RunIdleHooks {
                team_id: state.call.team_id,
                member_name: find_member(
                    state.call.members,
                    outcome.statuses[entry as int].0,
                )->0.name,
            },
        )
    } else {
        (
            at(state, PhaseModel::AwaitAnswer),
            ActionModel::WriteAnswer(answer_model(state.call, outcome, reported)),
        )
    }
}

/// The word for a mode.
pub open spec fn mode_word(mode: WaitTeamMode) -> Seq<char> {
    match mode {
        WaitTeamMode::Any => "any"@,
        WaitTeamMode::All => "all"@,
    }
}

/// A status as JSON.
pub open spec fn status_tree(status: StatusModel) -> JsonTree {
    arguments_value(parsed_json(status.state), status.state)
}

/// The member that ended the waiting as JSON, null where none is named.
pub open spec fn triggered_tree(member: Option<MemberModel>) -> JsonTree {
    match member {
        Some(member) => object(
            seq![
                ("name"@, JsonTree::Text(member.name)),
                ("agent_id"@, JsonTree::Text(member.agent_id)),
            ],
        ),
        None => JsonTree::Null,
    }
}

/// A member and its status as JSON.
pub open spec fn member_status_tree(member: MemberStatusModel) -> JsonTree {
    object(
        seq![
            ("name"@, JsonTree::Text(member.name)),
            ("agent_id"@, JsonTree::Text(member.agent_id)),
            ("state"@, status_tree(member.state)),
        ],
    )
}

/// The answer to a call as JSON.
pub open spec fn answer_tree(answer: AnswerModel) -> JsonTree {
    object(
        seq![
            ("completed"@, JsonTree::Bool(answer.completed)),
            ("mode"@, JsonTree::Text(mode_word(answer.mode))),
            ("triggered_member"@, triggered_tree(answer.triggered_member)),
            (
                "member_statuses"@,
                JsonTree::Array(
                    Seq::new(
                        answer.member_statuses.len(),
                        |i: int| member_status_tree(answer.member_statuses[i]),
                    ),
                ),
            ),
        ],
    )
}

/// The result of a call, given the answer as text or why there is none.
pub open spec fn answer_result(written: Result<Seq<char>, Seq<char>>) -> Result<
    OutputModel,
    ErrorModel,
> {
    match written {
        Ok(text) => Ok(OutputModel { text, success: Some(true) }),
        Err(error) => Err(ErrorModel::Fatal("failed to serialize wait_team result: "@ + error)),
    }
}

/// The course of a call: where an event leads, and what is to be done there.
pub open spec fn next(state: WaitModel, event: EventModel) -> (WaitModel, ActionModel) {
    let call = state.call;
    match (state.phase, event) {
        (PhaseModel::AwaitBegin { timeout_ms }, EventModel::Done) => (
            at(state, PhaseModel::AwaitAgents),
            ActionModel::WaitForAgents {
                agent_ids: agent_ids(call.members),
                timeout_ms,
                mode: call.mode,
            },
        ),
        (PhaseModel::AwaitAgents, EventModel::Waited(result)) => match result {
            Ok(outcome) => collected(state, outcome, status_map(outcome.statuses), 0),
            Err(failure) => (
                at(
                    state,
                    PhaseModel::AwaitFailedStatus {
                        agent_id: failure.agent_id,
                        error: failure.error,
                    },
                ),
                ActionModel::ReadStatus { agent_id: failure.agent_id },
            ),
        },
        (PhaseModel::AwaitFailedStatus { agent_id, error }, EventModel::Status(status)) => (
            at(state, PhaseModel::AwaitFailedEnd { error }),
            ActionModel::SendEnd(
                end_model(call, Seq::empty(), Map::empty().insert(agent_id, status)),
            ),
        ),
        (PhaseModel::AwaitFailedEnd { error }, EventModel::Done) => (
            at(state, PhaseModel::Finished),
            ActionModel::Finish(Err(error)),
        ),
        (
            PhaseModel::AwaitMemberStatus { outcome, reported, member },
            EventModel::Status(status),
        ) => collected(
            state,
            outcome,
            reported.insert(call.members[member as int].agent_id, status),
            member + 1,
        ),
        (PhaseModel::AwaitEnd { outcome, reported }, EventModel::Done) => announced(
            state,
            outcome,
            reported,
            0,
        ),
        (
            PhaseModel::AwaitIdle { outcome, reported, entry },
            EventModel::IdleHooksRan(objection),
        ) => match objection {
            Some(message) => (
                at(state, PhaseModel::Finished),
                ActionModel::Finish(Err(ErrorModel::RespondToModel(message))),
            ),
            None => announced(state, outcome, reported, entry + 1),
        },
        (PhaseModel::AwaitAnswer, EventModel::AnswerWritten(written)) => (
            at(state, PhaseModel::Finished),
            ActionModel::Finish(answer_result(written)),
        ),
        _ => arbitrary(),
    }
}

/// Whether each member of a team has a status.
pub open spec fn all_reported(
    members: Seq<MemberModel>,
    reported: Map<Seq<char>, StatusModel>,
) -> bool {
    forall|i: int|
        0 <= i < members.len() ==> reported.contains_key((#[trigger] members[i]).agent_id)
}

/// Whether a call can be at its phase: what was seen while waiting is reported as it was seen,
/// the members are reported in their order, and all of them are by the time the end is.
pub open spec fn well_formed(state: WaitModel) -> bool {
    let members = state.call.members;
    match state.phase {
        PhaseModel::AwaitMemberStatus { outcome, reported, member } => {
            &&& status_map(outcome.statuses).submap_of(reported)
            &&& member < members.len()
            &&& all_reported(members.take(member as int), reported)
            &&& !reported.contains_key(members[member as int].agent_id)
        },
        PhaseModel::AwaitEnd { outcome, reported } => {
            &&& status_map(outcome.statuses).submap_of(reported)
            &&& all_reported(members, reported)
        },
        PhaseModel::AwaitIdle { outcome, reported, entry } => {
            &&& status_map(outcome.statuses).submap_of(reported)
            &&& all_reported(members, reported)
            &&& entry < outcome.statuses.len()
            &&& tells_idle(members, outcome.statuses[entry as int])
        },
        _ => true,
    }
}

proof fn lemma_unreported(
    members: Seq<MemberModel>,
    reported: Map<Seq<char>, StatusModel>,
    from: nat,
)
    requires
        from <= members.len(),
        all_reported(members.take(from as int), reported),
    ensures
        ({
            let i = unreported_from(members, reported, from);
            &&& from <= i <= members.len()
            &&& all_reported(members.take(i as int), reported)
            &&& i < members.len() ==> !reported.contains_key(members[i as int].agent_id)
        }),
    decreases members.len() - from,
{
    if from < members.len() && reported.contains_key(members[from as int].agent_id) {
        let more = members.take(from as int + 1);
        assert forall|j: int| 0 <= j < more.len() implies reported.contains_key(
            (#[trigger] more[j]).agent_id,
        ) by {
            if j < from {
                assert(more[j] == members.take(from as int)[j]);
            }
        }
        lemma_unreported(members, reported, from + 1);
    }
}

/// The status of an agent that had none leaves every other status as it is.
proof fn lemma_new_status_keeps_the_others(
    seen: Map<Seq<char>, StatusModel>,
    known: Map<Seq<char>, StatusModel>,
    agent_id: Seq<char>,
    status: StatusModel,
)
    requires
        seen.submap_of(known),
        !known.contains_key(agent_id),
    ensures
        seen.submap_of(known.insert(agent_id, status)),
{
    let more = known.insert(agent_id, status);
    assert forall|key: Seq<char>| #[trigger] seen.dom().contains(key) implies more.dom().contains(
        key,
    ) && seen[key] == more[key] by {
        assert(known.dom().contains(key));
        assert(known[key] == seen[key]);
    }
}

proof fn lemma_idle(
    members: Seq<MemberModel>,
    statuses: Seq<(Seq<char>, StatusModel)>,
    from: nat,
)
    requires
        from <= statuses.len(),
    ensures
        ({
            let i = idle_from(members, statuses, from);
            &&& from <= i <= statuses.len()
            &&& i < statuses.len() ==> tells_idle(members, statuses[i as int])
        }),
    decreases statuses.len() - from,
{
    if from < statuses.len() && !tells_idle(members, statuses[from as int]) {
        lemma_idle(members, statuses, from + 1);
    }
}

proof fn lemma_member(members: Seq<MemberModel>, agent_id: Seq<char>, from: nat)
    requires
        from <= members.len(),
    ensures
        ({
            let i = member_from(members, agent_id, from);
            &&& from <= i <= members.len()
            &&& i < members.len() ==> members[i as int].agent_id == agent_id
            &&& forall|j: int| from <= j < i ==> (#[trigger] members[j]).agent_id != agent_id
        }),
    decreases members.len() - from,
{
    if from < members.len() && members[from as int].agent_id != agent_id {
        lemma_member(members, agent_id, from + 1);
    }
}

/// A call at any phase that events lead to is well formed.
pub proof fn law_a_call_stays_well_formed(state: WaitModel, event: EventModel)
    requires
        well_formed(state),
        awaited(state.phase, event),
    ensures
        well_formed(next(state, event).0),
        next(state, event).0.call == state.call,
{
    let members = state.call.members;
    match (state.phase, event) {
        (PhaseModel::AwaitAgents, EventModel::Waited(Ok(outcome))) => {
            lemma_unreported(members, status_map(outcome.statuses), 0);
            assert(members.take(members.len() as int) =~= members);
        },
        (
            PhaseModel::AwaitMemberStatus { outcome, reported, member },
            EventModel::Status(status),
        ) => {
            let more = reported.insert(members[member as int].agent_id, status);
            lemma_new_status_keeps_the_others(
                status_map(outcome.statuses),
                reported,
                members[member as int].agent_id,
                status,
            );
            let done = members.take(member as int + 1);
            assert forall|j: int| 0 <= j < done.len() implies more.contains_key(
                (#[trigger] done[j]).agent_id,
            ) by {
                if j < member {
                    assert(done[j] == members.take(member as int)[j]);
                }
            }
            lemma_unreported(members, more, member + 1);
            assert(members.take(members.len() as int) =~= members);
        },
        (PhaseModel::AwaitEnd { outcome, .. }, EventModel::Done) => {
            lemma_idle(members, outcome.statuses, 0);
        },
        (PhaseModel::AwaitIdle { outcome, entry, .. }, EventModel::IdleHooksRan(None)) => {
            lemma_idle(members, outcome.statuses, entry + 1);
        },
        _ => {},
    }
}

impl AgentStatus {
    fn copy(&self) -> (copy: AgentStatus)
        ensures
            copy@ == self@,
    {
        AgentStatus { state: self.state.clone(), is_final: self.is_final }
    }
}

fn member_position(members: &Vec<TeamMember>, agent_id: &str) -> (position: usize)
    ensures
        position == member_from(member_models(members@), agent_id@, 0),
        position <= members@.len(),
{
    let mut i: usize = 0;
    while i < members.len()
        invariant
            i <= members@.len(),
            member_from(member_models(members@), agent_id@, 0) == member_from(
                member_models(members@),
                agent_id@,
                i as nat,
            ),
        decreases members@.len() - i,
    {
        if same_text(members[i].agent_id.as_str(), agent_id) {
            return i;
        }
        i = i + 1;
    }
    i
}

fn status_of(entries: &Vec<(String, AgentStatus)>, agent_id: &str) -> (status: Option<AgentStatus>)
    ensures
        match status {
            Some(status) => status_map(entry_models(entries@)).contains_key(agent_id@)
                && status_map(entry_models(entries@))[agent_id@] == status@,
            None => !status_map(entry_models(entries@)).contains_key(agent_id@),
        },
{
    let ghost models = entry_models(entries@);
    let mut i: usize = entries.len();
    assert(models.take(i as int) =~= models);
    while i > 0
        invariant
            i <= entries@.len(),
            models == entry_models(entries@),
            status_map(models).contains_key(agent_id@) == status_map(
                models.take(i as int),
            ).contains_key(agent_id@),
            status_map(models)[agent_id@] == status_map(models.take(i as int))[agent_id@],
        decreases i,
    {
        assert(models.take(i as int).drop_last() =~= models.take(i - 1));
        if same_text(entries[i - 1].0.as_str(), agent_id) {
            return Some(entries[i - 1].1.copy());
        }
        i = i - 1;
    }
    None
}

fn copy_members(members: &Vec<TeamMember>) -> (copies: Vec<TeamMember>)
    ensures
        member_models(copies@) == member_models(members@),
{
    let mut copies: Vec<TeamMember> = Vec::new();
    let mut i: usize = 0;
    while i < members.len()
        invariant
            i <= members@.len(),
            copies@.len() == i,
            forall|j: int| 0 <= j < i ==> (#[trigger] copies@[j])@ == members@[j]@,
        decreases members@.len() - i,
    {
        copies.push(
            TeamMember { name: members[i].name.clone(), agent_id: members[i].agent_id.clone() },
        );
        i = i + 1;
    }
    assert(member_models(copies@) =~= member_models(members@));
    copies
}

fn member_agents(members: &Vec<TeamMember>) -> (ids: Vec<String>)
    ensures
        texts(ids@) == agent_ids(member_models(members@)),
{
    let mut ids: Vec<String> = Vec::new();
    let mut i: usize = 0;
    while i < members.len()
        invariant
            i <= members@.len(),
            ids@.len() == i,
            forall|j: int| 0 <= j < i ==> (#[trigger] ids@[j])@ == members@[j].agent_id@,
        decreases members@.len() - i,
    {
        ids.push(members[i].agent_id.clone());
        i = i + 1;
    }
    assert(texts(ids@) =~= agent_ids(member_models(members@)));
    ids
}

fn copy_entries(entries: &Vec<(String, AgentStatus)>) -> (copies: Vec<(String, AgentStatus)>)
    ensures
        entry_models(copies@) == entry_models(entries@),
{
    let mut copies: Vec<(String, AgentStatus)> = Vec::new();
    let mut i: usize = 0;
    while i < entries.len()
        invariant
            i <= entries@.len(),
            copies@.len() == i,
            forall|j: int|
                0 <= j < i ==> (#[trigger] copies@[j]).0@ == entries@[j].0@ && copies@[j].1@
                    == entries@[j].1@,
        decreases entries@.len() - i,
    {
        copies.push((entries[i].0.clone(), entries[i].1.copy()));
        i = i + 1;
    }
    assert(entry_models(copies@) =~= entry_models(entries@));
    copies
}

/// The statuses of the members of a team, in the order of the members, given the statuses
/// that are known.
fn list_statuses(members: &Vec<TeamMember>, reported: &Vec<(String, AgentStatus)>) -> (listed: Vec<
    WaitTeamMemberStatus,
>)
    requires
        all_reported(member_models(members@), status_map(entry_models(reported@))),
    ensures
        Seq::new(listed@.len(), |i: int| listed@[i]@) == member_statuses(
            member_models(members@),
            status_map(entry_models(reported@)),
        ),
{
    let ghost models = member_models(members@);
    let ghost known = status_map(entry_models(reported@));
    let mut listed: Vec<WaitTeamMemberStatus> = Vec::new();
    let mut i: usize = 0;
    while i < members.len()
        invariant
            i <= members@.len(),
            listed@.len() == i,
            models == member_models(members@),
            known == status_map(entry_models(reported@)),
            all_reported(models, known),
            forall|j: int|
                0 <= j < i ==> (#[trigger] listed@[j])@ == member_statuses(models, known)[j],
        decreases members@.len() - i,
    {
        let member = &members[i];
        assert(known.contains_key(models[i as int].agent_id));
        match status_of(reported, member.agent_id.as_str()) {
            Some(state) => {
                listed.push(
                    WaitTeamMemberStatus {
                        name: member.name.clone(),
                        agent_id: member.agent_id.clone(),
                        state,
                    },
                );
            },
            None => unreached(),
        }
        i = i + 1;
    }
    assert(Seq::new(listed@.len(), |i: int| listed@[i]@) =~= member_statuses(models, known));
    listed
}

/// Whether each of the statuses is final.
fn all_final(listed: &Vec<WaitTeamMemberStatus>) -> (result: bool)
    ensures
        result == forall|i: int|
            0 <= i < listed@.len() ==> (#[trigger] listed@[i]).state.is_final,
{
    let mut i: usize = 0;
    while i < listed.len()
        invariant
            i <= listed@.len(),
            forall|j: int| 0 <= j < i ==> (#[trigger] listed@[j]).state.is_final,
        decreases listed@.len() - i,
    {
        if !listed[i].state.is_final {
            return false;
        }
        i = i + 1;
    }
    true
}

/// The answer to a call.
pub fn wait_answer(
    call: &WaitCall,
    outcome: &WaitOutcome,
    reported: &Vec<(String, AgentStatus)>,
) -> (answer: WaitTeamResult)
    requires
        all_reported(call@.members, status_map(entry_models(reported@))),
    ensures
        answer@ == answer_model(call@, outcome@, status_map(entry_models(reported@))),
{
    let member_statuses = list_statuses(&call.members, reported);
    let triggered_member = match (call.mode, &outcome.triggered_id) {
        (WaitTeamMode::Any, Some(agent_id)) => {
            let position = member_position(&call.members, agent_id.as_str());
            if position < call.members.len() {
                let member = &call.members[position];
                Some(
                    WaitTeamTriggeredMember {
                        name: member.name.clone(),
                        agent_id: member.agent_id.clone(),
                    },
                )
            } else {
                None
            }
        },
        _ => None,
    };
    let completed = match call.mode {
        WaitTeamMode::Any => !outcome.timed_out && outcome.statuses.len() > 0,
        WaitTeamMode::All => !outcome.timed_out && all_final(&member_statuses),
    };
    proof {
        let known = status_map(entry_models(reported@));
        let listed = Seq::new(member_statuses@.len(), |i: int| member_statuses@[i]@);
        assert(listed == crate::multi_agents::wait_team::member_statuses(call@.members, known));
        assert(listed.len() == call@.members.len());
        assert forall|i: int| 0 <= i < call@.members.len() implies known[(
        #[trigger] call@.members[i]).agent_id].is_final == member_statuses@[i].state.is_final by {
            assert(listed[i].state.is_final == member_statuses@[i].state.is_final);
        }
        if forall|i: int|
            0 <= i < call@.members.len() ==> known[(
            #[trigger] call@.members[i]).agent_id].is_final {
            assert forall|i: int| 0 <= i < member_statuses@.len() implies (
            #[trigger] member_statuses@[i]).state.is_final by {
                assert(known[call@.members[i].agent_id].is_final);
            }
        }
    }
    WaitTeamResult { completed, mode: call.mode, triggered_member, member_statuses }
}

/// The word for a mode.
pub fn mode_name(mode: WaitTeamMode) -> (word: &'static str)
    ensures
        word@ == mode_word(mode),
{
    match mode {
        WaitTeamMode::Any => "any",
        WaitTeamMode::All => "all",
    }
}

/// A status as JSON.
pub fn status_json(status: &AgentStatus) -> (json: Json)
    ensures
        json.tree() == status_tree(status@),
{
    parsed_or_text(Json::parse(status.state.as_str()), status.state.as_str())
}

/// The member that ended the waiting as JSON, null where none is named.
fn triggered_json(member: &Option<WaitTeamTriggeredMember>) -> (json: Json)
    ensures
        json.tree() == triggered_tree(
            match *member {
                Some(member) => Some(member@),
                None => None,
            },
        ),
{
    match member {
        Some(member) => {
            let mut entries: Vec<(String, Json)> = Vec::new();
            entries.push(("name".to_string(), Json::Text(member.name.clone())));
            entries.push(("agent_id".to_string(), Json::Text(member.agent_id.clone())));
            assert(named_trees_of(entries@) =~= seq![
                ("name"@, JsonTree::Text(member.name@)),
                ("agent_id"@, JsonTree::Text(member.agent_id@)),
            ]);
            Json::Object(entries)
        },
        None => Json::Null,
    }
}

/// A member and its status as JSON.
fn member_status_json(member: &WaitTeamMemberStatus) -> (json: Json)
    ensures
        json.tree() == member_status_tree(member@),
{
    let mut entries: Vec<(String, Json)> = Vec::new();
    entries.push(("name".to_string(), Json::Text(member.name.clone())));
    entries.push(("agent_id".to_string(), Json::Text(member.agent_id.clone())));
    entries.push(("state".to_string(), status_json(&member.state)));
    assert(named_trees_of(entries@) =~= seq![
        ("name"@, JsonTree::Text(member.name@)),
        ("agent_id"@, JsonTree::Text(member.agent_id@)),
        ("state"@, status_tree(member.state@)),
    ]);
    Json::Object(entries)
}

/// The answer to a call as JSON.
pub fn answer_json(answer: &WaitTeamResult) -> (json: Json)
    ensures
        json.tree() == answer_tree(answer@),
{
    let mut members: Vec<Json> = Vec::new();
    let mut i: usize = 0;
    while i < answer.member_statuses.len()
        invariant
            i <= answer.member_statuses@.len(),
            members@.len() == i,
            forall|j: int|
                0 <= j < i ==> (#[trigger] members@[j]).tree() == member_status_tree(
                    answer.member_statuses@[j]@,
                ),
        decreases answer.member_statuses@.len() - i,
    {
        members.push(member_status_json(&answer.member_statuses[i]));
        i = i + 1;
    }
    let ghost listed = Seq::new(
        answer@.member_statuses.len(),
        |i: int| member_status_tree(answer@.member_statuses[i]),
    );
    assert(trees_of(members@) =~= listed);
    let mut entries: Vec<(String, Json)> = Vec::new();
    entries.push(("completed".to_string(), Json::Bool(answer.completed)));
    entries.push(("mode".to_string(), Json::Text(mode_name(answer.mode).to_string())));
    entries.push(("triggered_member".to_string(), triggered_json(&answer.triggered_member)));
    entries.push(("member_statuses".to_string(), Json::Array(members)));
    assert(named_trees_of(entries@) =~= seq![
        ("completed"@, JsonTree::Bool(answer@.completed)),
        ("mode"@, JsonTree::Text(mode_word(answer@.mode))),
        ("triggered_member"@, triggered_tree(answer@.triggered_member)),
        ("member_statuses"@, JsonTree::Array(listed)),
    ]);
    Json::Object(entries)
}

/// The result of a call, given the answer as text or why there is none.
pub fn answer_output(written: Result<String, String>) -> (result: Result<
    TextOutput,
    FunctionCallError,
>)
    ensures
        output_result(result) == answer_result(text_result(written)),
{
    match written {
        Ok(text) => Ok(TextOutput { text, success: Some(true) }),
        Err(error) => {
            let mut message = "failed to serialize wait_team result: ".to_string();
            message.append(error.as_str());
            Err(FunctionCallError::Fatal(message))
        },
    }
}

/// Begins a call of `wait_team`, unless it is refused. The first thing to do is to report that
/// the waiting begins.
pub fn handle(request: WaitRequest) -> (begun: Result<(WaitTeam, WaitAction), FunctionCallError>)
    ensures
        match begun {
            Ok((state, action)) => {
                &&& state@.phase matches PhaseModel::AwaitBegin { timeout_ms }
                &&& admitted(request@) == Ok::<(CallModel, i64), ErrorModel>(
                    (state@.call, timeout_ms),
                )
                &&& action@ == (ActionModel::SendBegin {
                    sender_thread_id: state@.call.sender_thread_id,
                    call_id: state@.call.call_id,
                    receiver_thread_ids: agent_ids(state@.call.members),
                    members: state@.call.members,
                })
            },
            Err(error) => admitted(request@) == Err::<(CallModel, i64), ErrorModel>(error@),
        },
{
    let team = match request.team {
        Ok(team) => team,
        Err(error) => return Err(error),
    };
    if team.members.len() == 0 {
        let mut message = "team `".to_string();
        message.append(team.team_id.as_str());
        message.append("` has no members");
        return Err(FunctionCallError::RespondToModel(message));
    }
    let mode = match request.mode {
        Some(mode) => mode,
        None => WaitTeamMode::All,
    };
    let timeout_ms: i64 = match request.timeout_ms {
        Ok(timeout_ms) => timeout_ms,
        Err(error) => return Err(error),
    };
    let call = WaitCall {
        sender_thread_id: request.sender_thread_id,
        call_id: request.call_id,
        team_id: team.team_id,
        members: team.members,
        mode,
    };
    let action = WaitAction::SendBegin {
        sender_thread_id: call.sender_thread_id.clone(),
        call_id: call.call_id.clone(),
        receiver_thread_ids: member_agents(&call.members),
        members: copy_members(&call.members),
    };
    Ok((WaitTeam { call, phase: WaitPhase::AwaitBegin { timeout_ms } }, action))
}

impl WaitTeam {
    #[verifier::type_invariant]
    spec fn inv(&self) -> bool {
        well_formed(self@)
    }

    /// Whether an event answers the action that the call waits for.
    pub fn awaits(&self, event: &WaitEvent) -> (result: bool)
        ensures
            result == awaited(self@.phase, event@),
    {
        match (&self.phase, event) {
            (WaitPhase::AwaitBegin { .. }, WaitEvent::Done) => true,
            (WaitPhase::AwaitAgents, WaitEvent::Waited(_)) => true,
            (WaitPhase::AwaitFailedStatus { .. }, WaitEvent::Status(_)) => true,
            (WaitPhase::AwaitFailedEnd { .. }, WaitEvent::Done) => true,
            (WaitPhase::AwaitMemberStatus { .. }, WaitEvent::Status(_)) => true,
            (WaitPhase::AwaitEnd { .. }, WaitEvent::Done) => true,
            (WaitPhase::AwaitIdle { .. }, WaitEvent::IdleHooksRan(_)) => true,
            (WaitPhase::AwaitAnswer, WaitEvent::AnswerWritten(_)) => true,
            _ => false,
        }
    }

    fn collect(
        call: WaitCall,
        outcome: WaitOutcome,
        reported: Vec<(String, AgentStatus)>,
        from: usize,
    ) -> (moved: (WaitTeam, WaitAction))
        requires
            from <= call@.members.len(),
            all_reported(
                call@.members.take(from as int),
                status_map(entry_models(reported@)),
            ),
            status_map(outcome@.statuses).submap_of(status_map(entry_models(reported@))),
        ensures
            forall|phase: PhaseModel|
                (moved.0@, moved.1@) == #[trigger] collected(
                    WaitModel { call: call@, phase },
                    outcome@,
                    status_map(entry_models(reported@)),
                    from as nat,
                ),
    {
        let ghost members = call@.members;
        let ghost known = status_map(entry_models(reported@));
        let mut member: usize = from;
        while member < call.members.len()
            invariant_except_break
                unreported_from(members, known, from as nat) == unreported_from(
                    members,
                    known,
                    member as nat,
                ),
            invariant
                members == member_models(call.members@),
                known == status_map(entry_models(reported@)),
                member <= members.len(),
            ensures
                member == unreported_from(members, known, from as nat),
            decreases members.len() - member,
        {
            if status_of(&reported, call.members[member].agent_id.as_str()).is_none() {
                break;
            }
            member = member + 1;
        }
        proof {
            lemma_unreported(members, known, from as nat);
            assert(members.take(members.len() as int) =~= members);
        }
        if member < call.members.len() {
            let action = WaitAction::ReadStatus {
                agent_id: call.members[member].agent_id.clone(),
            };
            let phase = WaitPhase::AwaitMemberStatus { outcome, reported, member };
            (WaitTeam { call, phase }, action)
        } else {
            let end = WaitEnd {
                sender_thread_id: call.sender_thread_id.clone(),
                call_id: call.call_id.clone(),
                members: copy_members(&call.members),
                statuses: copy_entries(&reported),
            };
            let phase = WaitPhase::AwaitEnd { outcome, reported };
            (WaitTeam { call, phase }, WaitAction::SendEnd(end))
        }
    }

    fn announce(
        call: WaitCall,
        outcome: WaitOutcome,
        reported: Vec<(String, AgentStatus)>,
        from: usize,
    ) -> (moved: (WaitTeam, WaitAction))
        requires
            from <= outcome@.statuses.len(),
            all_reported(call@.members, status_map(entry_models(reported@))),
            status_map(outcome@.statuses).submap_of(status_map(entry_models(reported@))),
        ensures
            forall|phase: PhaseModel|
                (moved.0@, moved.1@) == #[trigger] announced(
                    WaitModel { call: call@, phase },
                    outcome@,
                    status_map(entry_models(reported@)),
                    from as nat,
                ),
    {
        let ghost members = call@.members;
        let ghost statuses = outcome@.statuses;
        let mut entry: usize = from;
        let mut position: usize = 0;
        while entry < outcome.statuses.len()
            invariant_except_break
                idle_from(members, statuses, from as nat) == idle_from(
                    members,
                    statuses,
                    entry as nat,
                ),
            invariant
                members == member_models(call.members@),
                statuses == entry_models(outcome.statuses@),
                entry <= statuses.len(),
            ensures
                entry == idle_from(members, statuses, from as nat),
                entry < statuses.len() ==> position < members.len() && find_member(
                    members,
                    statuses[entry as int].0,
                ) == Some(members[position as int]),
            decreases statuses.len() - entry,
        {
            if outcome.statuses[entry].1.is_final {
                position = member_position(&call.members, outcome.statuses[entry].0.as_str());
                if position < call.members.len() {
                    break;
                }
            }
            entry = entry + 1;
        }
        proof {
            lemma_idle(members, statuses, from as nat);
        }
        if entry < outcome.statuses.len() {
            let action = WaitAction::RunIdleHooks {
                team_id: call.team_id.clone(),
                member_name: call.members[position].name.clone(),
            };
            let phase = WaitPhase::AwaitIdle { outcome, reported, entry };
            (WaitTeam { call, phase }, action)
        } else {
            let answer = wait_answer(&call, &outcome, &reported);
            (WaitTeam { call, phase: WaitPhase::AwaitAnswer }, WaitAction::WriteAnswer(answer))
        }
    }

    /// Goes on with a call at an event.
    pub fn step(self, event: WaitEvent) -> (moved: (WaitTeam, WaitAction))
        requires
            awaited(self@.phase, event@),
        ensures
            (moved.0@, moved.1@) == next(self@, event@),
    {
        proof {
            use_type_invariant(&self);
        }
        let WaitTeam { call, phase } = self;
        match (phase, event) {
            (WaitPhase::AwaitBegin { timeout_ms }, WaitEvent::Done) => {
                let action = WaitAction::WaitForAgents {
                    agent_ids: member_agents(&call.members),
                    timeout_ms,
                    mode: call.mode,
                };
                (WaitTeam { call, phase: WaitPhase::AwaitAgents }, action)
            },
            (WaitPhase::AwaitAgents, WaitEvent::Waited(result)) => match result {
                Ok(outcome) => {
                    let reported = copy_entries(&outcome.statuses);
                    Self::collect(call, outcome, reported, 0)
                },
                Err(failure) => {
                    let action = WaitAction::ReadStatus { agent_id: failure.agent_id.clone() };
                    let phase = WaitPhase::AwaitFailedStatus {
                        agent_id: failure.agent_id,
                        error: failure.error,
                    };
                    (WaitTeam { call, phase }, action)
                },
            },
            (WaitPhase::AwaitFailedStatus { agent_id, error }, WaitEvent::Status(status)) => {
                let mut statuses: Vec<(String, AgentStatus)> = Vec::new();
                statuses.push((agent_id, status));
                let end = WaitEnd {
                    sender_thread_id: call.sender_thread_id.clone(),
                    call_id: call.call_id.clone(),
                    members: Vec::new(),
                    statuses,
                };
                proof {
                    reveal_with_fuel(status_map, 2);
                    let models = entry_models(end.statuses@);
                    assert(models.drop_last() =~= Seq::empty());
                    assert(end@.members =~= Seq::empty());
                }
                (
                    WaitTeam { call, phase: WaitPhase::AwaitFailedEnd { error } },
                    WaitAction::SendEnd(end),
                )
            },
            (WaitPhase::AwaitFailedEnd { error }, WaitEvent::Done) => (
                WaitTeam { call, phase: WaitPhase::Finished },
                WaitAction::Finish(Err(error)),
            ),
            (
                WaitPhase::AwaitMemberStatus { outcome, reported, member },
                WaitEvent::Status(status),
            ) => {
                let ghost known = status_map(entry_models(reported@));
                let ghost before = entry_models(reported@);
                let ghost members = call@.members;
                assert(member < call.members.len());
                let mut reported = reported;
                reported.push((call.members[member].agent_id.clone(), status));
                proof {
                    let after = entry_models(reported@);
                    assert(after.drop_last() =~= before);
                    let more = status_map(after);
                    let agent_id = members[member as int].agent_id;
                    assert(more == known.insert(agent_id, status@));
                    lemma_new_status_keeps_the_others(
                        status_map(outcome@.statuses),
                        known,
                        agent_id,
                        status@,
                    );
                    let done = members.take(member + 1);
                    assert forall|j: int| 0 <= j < done.len() implies more.contains_key(
                        (#[trigger] done[j]).agent_id,
                    ) by {
                        if j < member {
                            assert(done[j] == members.take(member as int)[j]);
                        }
                    }
                }
                Self::collect(call, outcome, reported, member + 1)
            },
            (WaitPhase::AwaitEnd { outcome, reported }, WaitEvent::Done) => Self::announce(
                call,
                outcome,
                reported,
                0,
            ),
            (
                WaitPhase::AwaitIdle { outcome, reported, entry },
                WaitEvent::IdleHooksRan(objection),
            ) => match objection {
                Some(message) => (
                    WaitTeam { call, phase: WaitPhase::Finished },
                    WaitAction::Finish(Err(FunctionCallError::RespondToModel(message))),
                ),
                None => {
                    assert(entry < outcome.statuses.len());
                    Self::announce(call, outcome, reported, entry + 1)
                },
            },
            (WaitPhase::AwaitAnswer, WaitEvent::AnswerWritten(written)) => (
                WaitTeam { call, phase: WaitPhase::Finished },
                WaitAction::Finish(answer_output(written)),
            ),
            _ => unreached(),
        }
    }
}

/// Whether each of the events answers what the call waits for when it comes.
pub open spec fn admissible(state: WaitModel, events: Seq<EventModel>) -> bool
    decreases events.len(),
{
    events.len() > 0 ==> {
        &&& awaited(state.phase, events.first())
        &&& admissible(next(state, events.first()).0, events.drop_first())
    }
}

/// Where events lead a call.
pub open spec fn after(state: WaitModel, events: Seq<EventModel>) -> WaitModel
    decreases events.len(),
{
    if events.len() == 0 {
        state
    } else {
        after(next(state, events.first()).0, events.drop_first())
    }
}

/// How many of the actions on the way are of some kind.
pub open spec fn tally(
    state: WaitModel,
    events: Seq<EventModel>,
    kind: spec_fn(ActionModel) -> bool,
) -> nat
    decreases events.len(),
{
    if events.len() == 0 {
        0
    } else {
        let (moved, action) = next(state, events.first());
        tally(moved, events.drop_first(), kind) + if kind(action) {
            1nat
        } else {
            0nat
        }
    }
}

/// How far a phase is from the end, as a stage and what is left of it.
pub open spec fn distance(state: WaitModel) -> (nat, int) {
    match state.phase {
        PhaseModel::AwaitBegin { .. } => (6, 0),
        PhaseModel::AwaitAgents => (5, 0),
        PhaseModel::AwaitMemberStatus { member, .. } => (4, state.call.members.len() - member),
        PhaseModel::AwaitEnd { .. } => (3, 0),
        PhaseModel::AwaitIdle { outcome, entry, .. } => (2, outcome.statuses.len() - entry),
        PhaseModel::AwaitFailedStatus { .. } => (2, 0),
        PhaseModel::AwaitAnswer => (1, 0),
        PhaseModel::AwaitFailedEnd { .. } => (1, 0),
        PhaseModel::Finished => (0, 0),
    }
}

/// Every call ends: each event takes it to an earlier stage, or leaves less of the stage, and
/// until it has ended there is an event that it takes.
pub proof fn law_every_step_gets_closer_to_the_end(state: WaitModel, event: EventModel)
    requires
        well_formed(state),
        awaited(state.phase, event),
    ensures
        ({
            let (stage, left) = distance(state);
            let (later_stage, later_left) = distance(next(state, event).0);
            &&& later_left >= 0
            &&& later_stage < stage || (later_stage == stage && later_left < left)
            &&& !(next(state, event).0.phase is Finished) ==> exists|later: EventModel| #[trigger]
                awaited(next(state, event).0.phase, later)
        }),
{
    let members = state.call.members;
    match (state.phase, event) {
        (PhaseModel::AwaitAgents, EventModel::Waited(Ok(outcome))) => {
            assert(all_reported(members.take(0), status_map(outcome.statuses)));
            lemma_unreported(members, status_map(outcome.statuses), 0);
        },
        (PhaseModel::AwaitMemberStatus { .. }, EventModel::Status(_)) => {
            law_a_call_stays_well_formed(state, event);
            lemma_unreported_advances(
                members,
                state.phase->AwaitMemberStatus_reported.insert(
                    members[state.phase->member as int].agent_id,
                    event->Status_0,
                ),
                state.phase->member + 1,
            );
        },
        (PhaseModel::AwaitEnd { outcome, .. }, EventModel::Done) => {
            lemma_idle(members, outcome.statuses, 0);
        },
        (PhaseModel::AwaitIdle { outcome, entry, .. }, EventModel::IdleHooksRan(None)) => {
            lemma_idle(members, outcome.statuses, entry + 1);
        },
        _ => {},
    }
    let phase = next(state, event).0.phase;
    if !(phase is Finished) {
        assert(awaited(phase, EventModel::Done) || awaited(
            phase,
            EventModel::Waited(
                Ok(OutcomeModel { statuses: Seq::empty(), triggered_id: None, timed_out: true }),
            ),
        ) || awaited(
            phase,
            EventModel::Status(StatusModel { state: Seq::empty(), is_final: false }),
        ) || awaited(phase, EventModel::IdleHooksRan(None)) || awaited(
            phase,
            EventModel::AnswerWritten(Ok(Seq::empty())),
        ));
    }
}

proof fn lemma_unreported_advances(
    members: Seq<MemberModel>,
    reported: Map<Seq<char>, StatusModel>,
    from: nat,
)
    requires
        from <= members.len(),
    ensures
        from <= unreported_from(members, reported, from) <= members.len(),
    decreases members.len() - from,
{
    if from < members.len() {
        lemma_unreported_advances(members, reported, from + 1);
    }
}

/// A call ends with its result and in no other way: the step that ends it is the one that
/// gives the result, and it takes no event after that.
pub proof fn law_a_call_ends_with_its_result(state: WaitModel, event: EventModel)
    requires
        awaited(state.phase, event),
    ensures
        next(state, event).1 is Finish <==> next(state, event).0.phase is Finished,
        next(state, event).1 is Finish ==> forall|later: EventModel| !(#[trigger] awaited(
            next(state, event).0.phase,
            later,
        )),
{
}

/// The end of the waiting and the answer cover the whole team: each member has a status, and
/// what was seen while waiting is told as it was seen.
pub proof fn law_every_member_is_reported(state: WaitModel, event: EventModel)
    requires
        well_formed(state),
        awaited(state.phase, event),
    ensures
        next(state, event).0.phase matches PhaseModel::AwaitEnd { outcome, reported } ==> {
            &&& next(state, event).1 == ActionModel::SendEnd(
                end_model(state.call, state.call.members, reported),
            )
            &&& all_reported(state.call.members, reported)
            &&& status_map(outcome.statuses).submap_of(reported)
        },
        next(state, event).1 matches ActionModel::WriteAnswer(answer) ==> {
            &&& answer.member_statuses.len() == state.call.members.len()
            &&& forall|i: int|
                0 <= i < state.call.members.len() ==> {
                    &&& (#[trigger] answer.member_statuses[i]).name == state.call.members[i].name
                    &&& answer.member_statuses[i].agent_id == state.call.members[i].agent_id
                }
        },
{
    law_a_call_stays_well_formed(state, event);
}

/// The statuses that were seen while waiting, by agent.
pub open spec fn seen(phase: PhaseModel) -> Map<Seq<char>, StatusModel> {
    match phase {
        PhaseModel::AwaitMemberStatus { outcome, .. } => status_map(outcome.statuses),
        PhaseModel::AwaitEnd { outcome, .. } => status_map(outcome.statuses),
        PhaseModel::AwaitIdle { outcome, .. } => status_map(outcome.statuses),
        _ => Map::empty(),
    }
}

/// A status that was seen while waiting is the one that the answer gives for that member.
pub proof fn law_seen_statuses_are_answered(state: WaitModel, event: EventModel, member: int)
    requires
        well_formed(state),
        awaited(state.phase, event),
        0 <= member < state.call.members.len(),
        seen(state.phase).contains_key(state.call.members[member].agent_id),
    ensures
        next(state, event).1 matches ActionModel::WriteAnswer(answer)
            ==> answer.member_statuses[member].state == seen(
            state.phase,
        )[state.call.members[member].agent_id],
        next(state, event).1 matches ActionModel::SendEnd(end)
            ==> end.statuses.contains_key(state.call.members[member].agent_id)
            && end.statuses[state.call.members[member].agent_id] == seen(
            state.phase,
        )[state.call.members[member].agent_id],
{
    law_a_call_stays_well_formed(state, event);
    assert(seen(state.phase).dom().contains(state.call.members[member].agent_id));
}

/// A call that waits for all members is complete only where the status of each of them is
/// final, one that waits for any member only where a status was seen, and none where time ran
/// out.
pub proof fn law_completion_means_what_it_says(
    call: CallModel,
    outcome: OutcomeModel,
    reported: Map<Seq<char>, StatusModel>,
)
    ensures
        ({
            let answer = answer_model(call, outcome, reported);
            &&& answer.completed ==> !outcome.timed_out
            &&& call.mode is Any ==> answer.completed == (!outcome.timed_out
                && outcome.statuses.len() > 0)
            &&& call.mode is All && !outcome.timed_out ==> answer.completed == forall|i: int|
                0 <= i < answer.member_statuses.len() ==> (
                #[trigger] answer.member_statuses[i]).state.is_final
        }),
{
    let answer = answer_model(call, outcome, reported);
    assert(forall|i: int|
        0 <= i < call.members.len() ==> (#[trigger] answer.member_statuses[i]).state
            == reported[call.members[i].agent_id]);
    if call.mode is All && !outcome.timed_out {
        if answer.completed {
            assert forall|i: int| 0 <= i < answer.member_statuses.len() implies (
            #[trigger] answer.member_statuses[i]).state.is_final by {
                assert(reported[call.members[i].agent_id].is_final);
            }
        } else {
            let i = choose|i: int|
                0 <= i < call.members.len() && !reported[(
                #[trigger] call.members[i]).agent_id].is_final;
            assert(!answer.member_statuses[i].state.is_final);
        }
    }
}

/// Only a call that waits for any member names the one that ended the waiting, and the one
/// that it names is the first member of the team that is that agent.
pub proof fn law_only_waiting_for_any_names_a_member(call: CallModel, outcome: OutcomeModel)
    ensures
        call.mode is All ==> triggered_member(call, outcome) is None,
        triggered_member(call, outcome) matches Some(member) ==> {
            &&& outcome.triggered_id == Some(member.agent_id)
            &&& call.members.contains(member)
        },
        call.mode is Any && triggered_member(call, outcome) is None ==> match outcome.triggered_id {
            None => true,
            Some(agent_id) => forall|i: int|
                0 <= i < call.members.len() ==> (#[trigger] call.members[i]).agent_id != agent_id,
        },
{
    if let Some(agent_id) = outcome.triggered_id {
        lemma_member(call.members, agent_id, 0);
    }
}

/// Hooks for an idle member run only for a member of the team whose status is final, and once
/// the end of the waiting has been reported.
pub proof fn law_idle_hooks_run_for_idle_members(state: WaitModel, event: EventModel)
    requires
        well_formed(state),
        awaited(state.phase, event),
        next(state, event).1 is RunIdleHooks,
    ensures
        state.phase is AwaitEnd || state.phase is AwaitIdle,
        ({
            let moved = next(state, event).0;
            let entry = moved.phase->AwaitIdle_outcome.statuses[moved.phase->entry as int];
            &&& moved.phase is AwaitIdle
            &&& entry.1.is_final
            &&& exists|i: int|
                {
                    &&& 0 <= i < state.call.members.len()
                    &&& (#[trigger] state.call.members[i]).agent_id == entry.0
                    &&& next(state, event).1 == (ActionModel::RunIdleHooks {
                        team_id: state.call.team_id,
                        member_name: state.call.members[i].name,
                    })
                }
        }),
{
    law_a_call_stays_well_formed(state, event);
    let moved = next(state, event).0;
    let entry = moved.phase->AwaitIdle_outcome.statuses[moved.phase->entry as int];
    lemma_member(state.call.members, entry.0, 0);
    let i = member_from(state.call.members, entry.0, 0) as int;
    assert(state.call.members[i].agent_id == entry.0);
}

/// How many of the statuses from `from` on tell that a member is idle.
pub open spec fn idle_count(
    members: Seq<MemberModel>,
    statuses: Seq<(Seq<char>, StatusModel)>,
    from: nat,
) -> nat
    decreases statuses.len() - from,
{
    if from >= statuses.len() {
        0
    } else {
        idle_count(members, statuses, from + 1) + if tells_idle(members, statuses[from as int]) {
            1nat
        } else {
            0nat
        }
    }
}

proof fn lemma_idle_count(
    members: Seq<MemberModel>,
    statuses: Seq<(Seq<char>, StatusModel)>,
    from: nat,
)
    requires
        from <= statuses.len(),
    ensures
        ({
            let i = idle_from(members, statuses, from);
            idle_count(members, statuses, from) == if i < statuses.len() {
                1 + idle_count(members, statuses, i + 1)
            } else {
                0
            }
        }),
    decreases statuses.len() - from,
{
    if from < statuses.len() && !tells_idle(members, statuses[from as int]) {
        lemma_idle_count(members, statuses, from + 1);
    }
}

/// Hooks run once for each status that tells that a member is idle: a call that gets to its
/// answer, without an objection, has left none of them out.
pub proof fn law_idle_hooks_run_for_every_idle_member(
    state: WaitModel,
    events: Seq<EventModel>,
)
    requires
        well_formed(state),
        state.phase is AwaitEnd || state.phase is AwaitIdle,
        admissible(state, events),
        after(state, events).phase is AwaitAnswer,
    ensures
        tally(state, events, |action: ActionModel| action is RunIdleHooks) == match state.phase {
            PhaseModel::AwaitEnd { outcome, .. } => idle_count(
                state.call.members,
                outcome.statuses,
                0,
            ),
            PhaseModel::AwaitIdle { outcome, entry, .. } => idle_count(
                state.call.members,
                outcome.statuses,
                entry + 1,
            ),
            _ => 0,
        },
    decreases events.len(),
{
    if events.len() > 0 {
        let event = events.first();
        let moved = next(state, event).0;
        law_a_call_stays_well_formed(state, event);
        match state.phase {
            PhaseModel::AwaitEnd { outcome, .. } => {
                lemma_idle_count(state.call.members, outcome.statuses, 0);
            },
            PhaseModel::AwaitIdle { outcome, entry, .. } => {
                lemma_idle_count(state.call.members, outcome.statuses, entry + 1);
            },
            _ => {},
        }
        if moved.phase is AwaitIdle {
            law_idle_hooks_run_for_every_idle_member(moved, events.drop_first());
        } else {
            reveal_with_fuel(admissible, 3);
            reveal_with_fuel(after, 3);
            reveal_with_fuel(tally, 2);
        }
    }
}

/// A hook that objects fails the call, with its message for the model.
pub proof fn law_an_objection_fails_the_call(state: WaitModel, message: Seq<char>)
    requires
        state.phase is AwaitIdle,
    ensures
        next(state, EventModel::IdleHooksRan(Some(message))) == (
            at(state, PhaseModel::Finished),
            ActionModel::Finish(Err(ErrorModel::RespondToModel(message))),
        ),
{
}

/// The end of the waiting is reported once, whether the waiting succeeds or fails.
pub proof fn law_the_end_is_reported_once(state: WaitModel, events: Seq<EventModel>)
    requires
        admissible(state, events),
        after(state, events).phase is Finished,
    ensures
        tally(state, events, |action: ActionModel| action is SendEnd) == match state.phase {
            PhaseModel::AwaitBegin { .. } => 1nat,
            PhaseModel::AwaitAgents => 1,
            PhaseModel::AwaitFailedStatus { .. } => 1,
            PhaseModel::AwaitMemberStatus { .. } => 1,
            _ => 0,
        },
    decreases events.len(),
{
    if events.len() > 0 {
        law_the_end_is_reported_once(next(state, events.first()).0, events.drop_first());
    }
}

/// Where waiting for an agent fails, the status of that agent and of no other is reported, and
/// the call fails with the error.
pub proof fn law_failed_waiting_reports_the_agent(
    state: WaitModel,
    agent_id: Seq<char>,
    error: ErrorModel,
    status: StatusModel,
)
    requires
        state.phase is AwaitAgents,
    ensures
        ({
            let failed = next(state, EventModel::Waited(Err(FailureModel { agent_id, error })));
            let read = next(failed.0, EventModel::Status(status));
            let ended = next(read.0, EventModel::Done);
            &&& failed.1 == (ActionModel::ReadStatus { agent_id })
            &&& read.1 == ActionModel::SendEnd(
                end_model(state.call, Seq::empty(), Map::empty().insert(agent_id, status)),
            )
            &&& ended.1 == ActionModel::Finish(Err(error))
        }),
{
}

/// Each phase waits for the answer to the action that led to it, whatever that answer holds,
/// and a call that has ended waits for nothing.
pub proof fn law_what_a_call_waits_for(phase: PhaseModel, event: EventModel)
    ensures
        phase is AwaitBegin || phase is AwaitEnd || phase is AwaitFailedEnd ==> awaited(
            phase,
            event,
        ) == (event is Done),
        phase is AwaitAgents ==> awaited(phase, event) == (event is Waited),
        phase is AwaitFailedStatus || phase is AwaitMemberStatus ==> awaited(phase, event) == (
        event is Status),
        phase is AwaitIdle ==> awaited(phase, event) == (event is IdleHooksRan),
        phase is AwaitAnswer ==> awaited(phase, event) == (event is AnswerWritten),
        phase is Finished ==> !awaited(phase, event),
{
}

/// Why a call is refused: the first reason counts, in the order team, members and time to
/// wait. Any other call is admitted as it was made, and waits for all members unless it says
/// otherwise.
pub proof fn law_why_a_call_is_refused(
    request: RequestModel,
    team_id: Seq<char>,
    members: Seq<MemberModel>,
    error: ErrorModel,
)
    ensures
        request.team == Err::<(Seq<char>, Seq<MemberModel>), ErrorModel>(error) ==> admitted(request)
            == Err::<(CallModel, i64), ErrorModel>(error),
        request.team == Ok::<(Seq<char>, Seq<MemberModel>), ErrorModel>((team_id, members)) ==> {
            &&& members.len() == 0 ==> admitted(request) == Err::<(CallModel, i64), ErrorModel>(
                ErrorModel::RespondToModel("team `"@ + team_id + "` has no members"@),
            )
            &&& members.len() > 0 && request.timeout_ms == Err::<i64, ErrorModel>(error)
                ==> admitted(request) == Err::<(CallModel, i64), ErrorModel>(error)
            &&& members.len() > 0 && request.timeout_ms is Ok ==> admitted(request) == Ok::<
                (CallModel, i64),
                ErrorModel,
            >(
                (
                    CallModel {
                        sender_thread_id: request.sender_thread_id,
                        call_id: request.call_id,
                        team_id,
                        members,
                        mode: if request.mode == Some(WaitTeamMode::Any) {
                            WaitTeamMode::Any
                        } else {
                            WaitTeamMode::All
                        },
                    },
                    request.timeout_ms->Ok_0,
                ),
            )
        },
{
}

/// A call waits for every member of the team, in their order, for the time and in the mode
/// that it asks for.
pub proof fn law_every_member_is_waited_for(state: WaitModel, timeout_ms: i64, i: int)
    requires
        state.phase == (PhaseModel::AwaitBegin { timeout_ms }),
        0 <= i < state.call.members.len(),
    ensures
        next(state, EventModel::Done).1 matches ActionModel::WaitForAgents {
            agent_ids: ids,
            timeout_ms: time,
            mode,
        } && ids.len() == state.call.members.len() && ids[i] == state.call.members[i].agent_id
            && time == timeout_ms && mode == state.call.mode,
        next(state, EventModel::Done).0.phase is AwaitAgents,
        next(state, EventModel::Done).0.call == state.call,
        agent_ids(state.call.members).len() == state.call.members.len(),
        agent_ids(state.call.members)[i] == state.call.members[i].agent_id,
{
}

/// Of the statuses of one agent the last one counts.
pub proof fn law_the_last_status_of_an_agent_counts(
    entries: Seq<(Seq<char>, StatusModel)>,
    k: int,
)
    requires
        0 <= k < entries.len(),
        forall|j: int| k < j < entries.len() ==> (#[trigger] entries[j]).0 != entries[k].0,
    ensures
        status_map(entries).contains_key(entries[k].0),
        status_map(entries)[entries[k].0] == entries[k].1,
    decreases entries.len(),
{
    if k < entries.len() - 1 {
        assert(entries[entries.len() - 1].0 != entries[k].0);
        assert(entries.drop_last()[k] == entries[k]);
        law_the_last_status_of_an_agent_counts(entries.drop_last(), k);
    }
}

/// Whether a list holds a status of an agent.
pub open spec fn has_status(entries: Seq<(Seq<char>, StatusModel)>, agent_id: Seq<char>) -> bool {
    exists|k: int| 0 <= k < entries.len() && (#[trigger] entries[k]).0 == agent_id
}

/// Whether an agent is a member of a team.
pub open spec fn has_member(members: Seq<MemberModel>, agent_id: Seq<char>) -> bool {
    exists|i: int| 0 <= i < members.len() && (#[trigger] members[i]).agent_id == agent_id
}

/// An agent has a status exactly where the list holds one of it.
pub proof fn law_who_has_a_status(entries: Seq<(Seq<char>, StatusModel)>, agent_id: Seq<char>)
    ensures
        status_map(entries).contains_key(agent_id) <==> has_status(entries, agent_id),
    decreases entries.len(),
{
    if entries.len() > 0 {
        let before = entries.drop_last();
        law_who_has_a_status(before, agent_id);
        if has_status(before, agent_id) {
            let k = choose|k: int| 0 <= k < before.len() && (#[trigger] before[k]).0 == agent_id;
            assert(entries[k].0 == agent_id);
        }
        if entries.last().0 == agent_id {
            assert(entries[entries.len() - 1].0 == agent_id);
        }
        if has_status(entries, agent_id) {
            let k = choose|k: int| 0 <= k < entries.len() && (#[trigger] entries[k]).0 == agent_id;
            if k < entries.len() - 1 {
                assert(before[k].0 == agent_id);
            }
        }
    }
}

/// Whether a call that has seen or read a status of an agent still holds it as that of the
/// agent.
spec fn holds_status(state: WaitModel, agent_id: Seq<char>, status: StatusModel) -> bool {
    match state.phase {
        PhaseModel::AwaitMemberStatus { reported, .. } => reported.contains_key(agent_id)
            && reported[agent_id] == status,
        PhaseModel::AwaitEnd { reported, .. } => reported.contains_key(agent_id)
            && reported[agent_id] == status,
        PhaseModel::AwaitIdle { reported, .. } => reported.contains_key(agent_id)
            && reported[agent_id] == status,
        PhaseModel::AwaitAnswer => true,
        PhaseModel::Finished => true,
        _ => false,
    }
}

proof fn lemma_status_is_held(
    state: WaitModel,
    agent_id: Seq<char>,
    status: StatusModel,
    events: Seq<EventModel>,
)
    requires
        well_formed(state),
        holds_status(state, agent_id, status),
        admissible(state, events),
    ensures
        well_formed(after(state, events)),
        holds_status(after(state, events), agent_id, status),
        after(state, events).call == state.call,
    decreases events.len(),
{
    if events.len() > 0 {
        law_a_call_stays_well_formed(state, events.first());
        lemma_status_is_held(
            next(state, events.first()).0,
            agent_id,
            status,
            events.drop_first(),
        );
    }
}

/// Whether an action tells nothing else about an agent than the given status: an end of the
/// waiting holds it under that agent, and an answer gives it for each member that is the agent.
pub open spec fn tells_status(
    action: ActionModel,
    members: Seq<MemberModel>,
    agent_id: Seq<char>,
    status: StatusModel,
) -> bool {
    match action {
        ActionModel::SendEnd(end) => end.statuses.contains_key(agent_id) && end.statuses[agent_id]
            == status,
        ActionModel::WriteAnswer(answer) => answer.member_statuses.len() == members.len()
            && forall|i: int|
            0 <= i < members.len() && members[i].agent_id == agent_id ==> (
            #[trigger] answer.member_statuses[i]).state == status,
        _ => true,
    }
}

/// The status that is read for a member that was not seen while waiting is the one that is
/// reported for it, whatever it is and whether or not time ran out: by the end of the waiting,
/// and by the answer.
pub proof fn law_a_status_that_was_read_is_reported(
    state: WaitModel,
    status: StatusModel,
    events: Seq<EventModel>,
    event: EventModel,
)
    requires
        well_formed(state),
        state.phase is AwaitMemberStatus,
        admissible(next(state, EventModel::Status(status)).0, events),
        awaited(after(next(state, EventModel::Status(status)).0, events).phase, event),
    ensures
        ({
            let agent_id = state.call.members[state.phase->member as int].agent_id;
            let read = next(state, EventModel::Status(status));
            let later = next(after(read.0, events), event);
            &&& tells_status(read.1, state.call.members, agent_id, status)
            &&& tells_status(later.1, state.call.members, agent_id, status)
        }),
{
    let agent_id = state.call.members[state.phase->member as int].agent_id;
    let read = next(state, EventModel::Status(status));
    law_a_call_stays_well_formed(state, EventModel::Status(status));
    lemma_status_is_held(read.0, agent_id, status, events);
    law_a_call_stays_well_formed(after(read.0, events), event);
}

/// The status of an agent that was seen last while waiting is the one that is reported for it:
/// by the end of the waiting, and by the answer.
pub proof fn law_a_status_that_was_seen_is_reported(
    state: WaitModel,
    outcome: OutcomeModel,
    k: int,
    events: Seq<EventModel>,
    event: EventModel,
)
    requires
        state.phase is AwaitAgents,
        0 <= k < outcome.statuses.len(),
        forall|j: int|
            k < j < outcome.statuses.len() ==> (#[trigger] outcome.statuses[j]).0
                != outcome.statuses[k].0,
        admissible(next(state, EventModel::Waited(Ok(outcome))).0, events),
        awaited(after(next(state, EventModel::Waited(Ok(outcome))).0, events).phase, event),
    ensures
        ({
            let (agent_id, status) = outcome.statuses[k];
            let waited = next(state, EventModel::Waited(Ok(outcome)));
            let later = next(after(waited.0, events), event);
            &&& tells_status(waited.1, state.call.members, agent_id, status)
            &&& tells_status(later.1, state.call.members, agent_id, status)
        }),
{
    let (agent_id, status) = outcome.statuses[k];
    let waited = next(state, EventModel::Waited(Ok(outcome)));
    law_the_last_status_of_an_agent_counts(outcome.statuses, k);
    law_a_call_stays_well_formed(state, EventModel::Waited(Ok(outcome)));
    lemma_status_is_held(waited.0, agent_id, status, events);
    law_a_call_stays_well_formed(after(waited.0, events), event);
}

/// Whether all agents with a status were seen while waiting or are members.
pub open spec fn no_strangers(
    members: Seq<MemberModel>,
    statuses: Seq<(Seq<char>, StatusModel)>,
    reported: Map<Seq<char>, StatusModel>,
) -> bool {
    forall|agent_id: Seq<char>| #[trigger]
        reported.contains_key(agent_id) ==> has_status(statuses, agent_id) || has_member(
            members,
            agent_id,
        )
}

/// Whether a call holds statuses only of agents that were seen while waiting and of members.
pub open spec fn holds_no_strangers(state: WaitModel) -> bool {
    match state.phase {
        PhaseModel::AwaitMemberStatus { outcome, reported, .. } => no_strangers(
            state.call.members,
            outcome.statuses,
            reported,
        ),
        PhaseModel::AwaitEnd { outcome, reported } => no_strangers(
            state.call.members,
            outcome.statuses,
            reported,
        ),
        PhaseModel::AwaitIdle { outcome, reported, .. } => no_strangers(
            state.call.members,
            outcome.statuses,
            reported,
        ),
        _ => true,
    }
}

/// Nobody else is reported: the end of the waiting holds statuses of agents that were seen
/// while waiting and of members, and of no others.
pub proof fn law_nobody_else_is_reported(state: WaitModel, event: EventModel)
    requires
        well_formed(state),
        holds_no_strangers(state),
        awaited(state.phase, event),
    ensures
        holds_no_strangers(next(state, event).0),
        next(state, event).0.phase matches PhaseModel::AwaitEnd { reported, .. } ==> next(
            state,
            event,
        ).1 == ActionModel::SendEnd(
            EndModel {
                sender_thread_id: state.call.sender_thread_id,
                call_id: state.call.call_id,
                members: state.call.members,
                statuses: reported,
            },
        ),
{
    match (state.phase, event) {
        (PhaseModel::AwaitAgents, EventModel::Waited(Ok(outcome))) => {
            assert forall|agent_id: Seq<char>| #[trigger]
                status_map(outcome.statuses).contains_key(agent_id) implies has_status(
                outcome.statuses,
                agent_id,
            ) by {
                law_who_has_a_status(outcome.statuses, agent_id);
            }
        },
        (
            PhaseModel::AwaitMemberStatus { outcome, reported, member },
            EventModel::Status(status),
        ) => {
            let id = state.call.members[member as int].agent_id;
            let more = reported.insert(id, status);
            assert(has_member(state.call.members, id));
            assert forall|agent_id: Seq<char>| #[trigger] more.contains_key(agent_id) implies
                has_status(outcome.statuses, agent_id) || has_member(
                state.call.members,
                agent_id,
            ) by {
                if agent_id != id {
                    assert(reported.contains_key(agent_id));
                }
            }
            assert(no_strangers(state.call.members, outcome.statuses, more));
        },
        _ => {},
    }
}

/// The status that is read next is that of the first member without one: a member that was
/// seen while waiting is not asked again, nor is one that was asked.
pub proof fn law_only_members_without_a_status_are_asked(state: WaitModel, event: EventModel)
    requires
        well_formed(state),
        awaited(state.phase, event),
    ensures
        next(state, event).0.phase matches PhaseModel::AwaitMemberStatus {
            outcome,
            reported,
            member,
        } ==> {
            &&& member < state.call.members.len()
            &&& next(state, event).1 == (ActionModel::ReadStatus {
                agent_id: state.call.members[member as int].agent_id,
            })
            &&& !reported.contains_key(state.call.members[member as int].agent_id)
            &&& forall|k: int|
                0 <= k < outcome.statuses.len() ==> (#[trigger] outcome.statuses[k]).0
                    != state.call.members[member as int].agent_id
            &&& forall|j: int|
                0 <= j < member ==> reported.contains_key(
                    (#[trigger] state.call.members[j]).agent_id,
                )
        },
        state.phase is AwaitAgents ==> (next(state, event).0.phase
            matches PhaseModel::AwaitMemberStatus { outcome, reported, .. } ==> event
            == EventModel::Waited(Ok(outcome)) && reported == status_map(outcome.statuses)),
        state.phase is AwaitAgents ==> (next(state, event).0.phase matches PhaseModel::AwaitEnd {
            outcome,
            reported,
        } ==> event == EventModel::Waited(Ok(outcome)) && reported == status_map(outcome.statuses)),
{
    law_a_call_stays_well_formed(state, event);
    if let PhaseModel::AwaitMemberStatus { outcome, reported, member } = next(
        state,
        event,
    ).0.phase {
        let agent_id = state.call.members[member as int].agent_id;
        assert forall|k: int| 0 <= k < outcome.statuses.len() implies (
        #[trigger] outcome.statuses[k]).0 != agent_id by {
            law_who_has_a_status(outcome.statuses, agent_id);
            if outcome.statuses[k].0 == agent_id {
                assert(status_map(outcome.statuses).dom().contains(agent_id));
            }
        }
        assert forall|j: int| 0 <= j < member implies reported.contains_key(
            (#[trigger] state.call.members[j]).agent_id,
        ) by {
            assert(state.call.members.take(member as int)[j] == state.call.members[j]);
        }
    }
}

/// A member is found by its agent: the first of the team that is that agent, and none only
/// where no member is.
pub proof fn law_the_first_member_is_found(members: Seq<MemberModel>, agent_id: Seq<char>)
    ensures
        forall|i: int|
            0 <= i < members.len() && (#[trigger] members[i]).agent_id == agent_id && (forall|
                j: int,
            |
                0 <= j < i ==> (#[trigger] members[j]).agent_id != agent_id) ==> find_member(
                members,
                agent_id,
            ) == Some(members[i]),
        (forall|i: int| 0 <= i < members.len() ==> (#[trigger] members[i]).agent_id != agent_id)
            ==> find_member(members, agent_id) is None,
{
    lemma_member(members, agent_id, 0);
    let found = member_from(members, agent_id, 0) as int;
    assert forall|i: int|
        0 <= i < members.len() && (#[trigger] members[i]).agent_id == agent_id && (forall|j: int|
            0 <= j < i ==> (#[trigger] members[j]).agent_id != agent_id) implies find_member(
        members,
        agent_id,
    ) == Some(members[i]) by {
        if found < members.len() {
            assert(members[found].agent_id == agent_id);
        }
        assert(found == i);
    }
    if found < members.len() {
        assert(members[found].agent_id == agent_id);
    }
}

/// Whether a status is final and that of a member.
pub open spec fn is_idle_member(
    members: Seq<MemberModel>,
    entry: (Seq<char>, StatusModel),
) -> bool {
    entry.1.is_final && exists|i: int|
        0 <= i < members.len() && (#[trigger] members[i]).agent_id == entry.0
}

proof fn lemma_tells_idle(members: Seq<MemberModel>, entry: (Seq<char>, StatusModel))
    ensures
        tells_idle(members, entry) == is_idle_member(members, entry),
{
    law_the_first_member_is_found(members, entry.0);
    lemma_member(members, entry.0, 0);
    let found = member_from(members, entry.0, 0) as int;
    if found < members.len() {
        assert(members[found].agent_id == entry.0);
    }
}

proof fn lemma_nobody_idle_between(
    members: Seq<MemberModel>,
    statuses: Seq<(Seq<char>, StatusModel)>,
    from: nat,
)
    requires
        from <= statuses.len(),
    ensures
        forall|j: int|
            from <= j < idle_from(members, statuses, from) ==> !is_idle_member(
                members,
                #[trigger] statuses[j],
            ),
    decreases statuses.len() - from,
{
    if from < statuses.len() {
        lemma_tells_idle(members, statuses[from as int]);
        if !tells_idle(members, statuses[from as int]) {
            lemma_nobody_idle_between(members, statuses, from + 1);
        }
    }
}

/// Idle members are announced one after the other, in the order in which they were seen, and
/// none is passed over: an objection apart, the next announcement is for the next status that
/// is final and that of a member, and the answer comes where there is none. What was seen and
/// what is reported stays as it is.
pub proof fn law_idle_members_are_announced_in_order(
    state: WaitModel,
    outcome: OutcomeModel,
    reported: Map<Seq<char>, StatusModel>,
    announced_before: nat,
)
    requires
        well_formed(state),
        state.phase == (PhaseModel::AwaitEnd { outcome, reported }) && announced_before == 0
            || announced_before > 0 && state.phase == (PhaseModel::AwaitIdle {
            outcome,
            reported,
            entry: (announced_before - 1) as nat,
        }),
    ensures
        ({
            let moved = if state.phase is AwaitEnd {
                next(state, EventModel::Done)
            } else {
                next(state, EventModel::IdleHooksRan(None))
            };
            let members = state.call.members;
            let statuses = outcome.statuses;
            &&& moved.0.phase is AwaitIdle || moved.0.phase is AwaitAnswer
            &&& moved.0.phase matches PhaseModel::AwaitIdle {
                outcome: same_outcome,
                reported: same_reported,
                entry,
            } ==> {
                &&& same_outcome == outcome
                &&& same_reported == reported
                &&& announced_before <= entry < statuses.len()
                &&& is_idle_member(members, statuses[entry as int])
                &&& moved.1 is RunIdleHooks
                &&& forall|j: int|
                    announced_before <= j < entry ==> !is_idle_member(
                        members,
                        #[trigger] statuses[j],
                    )
            }
            &&& moved.0.phase is AwaitAnswer ==> {
                &&& moved.1 is WriteAnswer
                &&& forall|j: int|
                    announced_before <= j < statuses.len() ==> !is_idle_member(
                        members,
                        #[trigger] statuses[j],
                    )
            }
        }),
{
    lemma_idle(state.call.members, outcome.statuses, announced_before);
    lemma_nobody_idle_between(state.call.members, outcome.statuses, announced_before);
    let entry = idle_from(state.call.members, outcome.statuses, announced_before);
    if entry < outcome.statuses.len() {
        lemma_tells_idle(state.call.members, outcome.statuses[entry as int]);
    }
}

/// What an answer says: each member, in their order, with the status that is reported for it;
/// the mode; the member that ended the waiting, where any was waited for and it is a member;
/// and whether the waiting is complete, which it is not where time ran out.
pub proof fn law_what_an_answer_says(
    state: WaitModel,
    event: EventModel,
    outcome: OutcomeModel,
    reported: Map<Seq<char>, StatusModel>,
)
    requires
        awaited(state.phase, event),
        next(state, event).1 is WriteAnswer,
        state.phase == (PhaseModel::AwaitEnd { outcome, reported }) || (state.phase is AwaitIdle
            && state.phase->AwaitIdle_outcome == outcome && state.phase->AwaitIdle_reported
            == reported),
    ensures
        ({
            let answer = next(state, event).1->WriteAnswer_0;
            let members = state.call.members;
            &&& answer.mode == state.call.mode
            &&& answer.member_statuses.len() == members.len()
            &&& forall|i: int|
                0 <= i < members.len() ==> #[trigger] answer.member_statuses[i] == (
                MemberStatusModel {
                    name: members[i].name,
                    agent_id: members[i].agent_id,
                    state: reported[members[i].agent_id],
                })
            &&& outcome.timed_out ==> !answer.completed
            &&& !outcome.timed_out && state.call.mode is Any ==> (answer.completed
                <==> outcome.statuses.len() > 0)
            &&& !outcome.timed_out && state.call.mode is All ==> (answer.completed <==> forall|i: int|
                0 <= i < members.len() ==> (#[trigger] answer.member_statuses[i]).state.is_final)
            &&& state.call.mode is All || outcome.triggered_id is None
                ==> answer.triggered_member is None
            &&& state.call.mode is Any && outcome.triggered_id is Some ==> answer.triggered_member
                == find_member(members, outcome.triggered_id->0)
        }),
{
    law_completion_means_what_it_says(state.call, outcome, reported);
}

/// The result of a call is its answer as text, which counts as a success; one that cannot be
/// written is fatal.
pub proof fn law_the_answer_is_the_result(state: WaitModel, text: Seq<char>, error: Seq<char>)
    requires
        state.phase is AwaitAnswer,
    ensures
        next(state, EventModel::AnswerWritten(Ok(text))).1 == ActionModel::Finish(
            Ok(OutputModel { text, success: Some(true) }),
        ),
        next(state, EventModel::AnswerWritten(Err(error))).1 == ActionModel::Finish(
            Err(ErrorModel::Fatal("failed to serialize wait_team result: "@ + error)),
        ),
{
}

/// Where waiting for an agent fails, the end names the call, lists no member, and holds the
/// status of that agent alone.
pub proof fn law_the_end_of_failed_waiting(
    state: WaitModel,
    agent_id: Seq<char>,
    error: ErrorModel,
    status: StatusModel,
)
    requires
        state.phase == (PhaseModel::AwaitFailedStatus { agent_id, error }),
    ensures
        next(state, EventModel::Status(status)).1 == ActionModel::SendEnd(
            EndModel {
                sender_thread_id: state.call.sender_thread_id,
                call_id: state.call.call_id,
                members: Seq::empty(),
                statuses: map![agent_id => status],
            },
        ),
        next(state, EventModel::Status(status)).0.phase == (PhaseModel::AwaitFailedEnd { error }),
{
}

/// The JSON form of an answer, field by field.
pub proof fn law_the_form_of_an_answer(answer: AnswerModel, i: int)
    ensures
        answer_tree(answer) is Object,
        answer_tree(answer)->Object_0.dom() == set![
            "completed"@,
            "mode"@,
            "triggered_member"@,
            "member_statuses"@,
        ],
        answer_tree(answer)->Object_0["completed"@] == JsonTree::Bool(answer.completed),
        answer.mode is Any ==> answer_tree(answer)->Object_0["mode"@] == JsonTree::Text("any"@),
        answer.mode is All ==> answer_tree(answer)->Object_0["mode"@] == JsonTree::Text("all"@),
        answer.triggered_member is None ==> answer_tree(answer)->Object_0["triggered_member"@]
            is Null,
        answer.triggered_member matches Some(member) ==> answer_tree(
            answer,
        )->Object_0["triggered_member"@] == JsonTree::Object(
            map![
                "name"@ => JsonTree::Text(member.name),
                "agent_id"@ => JsonTree::Text(member.agent_id),
            ],
        ),
        answer_tree(answer)->Object_0["member_statuses"@] is Array,
        answer_tree(answer)->Object_0["member_statuses"@]->Array_0.len()
            == answer.member_statuses.len(),
        0 <= i < answer.member_statuses.len() ==> answer_tree(
            answer,
        )->Object_0["member_statuses"@]->Array_0[i] == JsonTree::Object(
            map![
                "name"@ => JsonTree::Text(answer.member_statuses[i].name),
                "agent_id"@ => JsonTree::Text(answer.member_statuses[i].agent_id),
                "state"@ => match parsed_json(answer.member_statuses[i].state.state) {
                    Some(value) => value,
                    None => JsonTree::Text(answer.member_statuses[i].state.state),
                },
            ],
        ),
{
    reveal_strlit("completed");
    reveal_strlit("mode");
    reveal_strlit("triggered_member");
    reveal_strlit("member_statuses");
    let listed = JsonTree::Array(
        Seq::new(
            answer.member_statuses.len(),
            |i: int| member_status_tree(answer.member_statuses[i]),
        ),
    );
    let entries = seq![
        ("completed"@, JsonTree::Bool(answer.completed)),
        ("mode"@, JsonTree::Text(mode_word(answer.mode))),
        ("triggered_member"@, triggered_tree(answer.triggered_member)),
        ("member_statuses"@, listed),
    ];
    lemma_three_fields(entries[0], entries[1], entries[2]);
    assert(entries.drop_last() =~= seq![entries[0], entries[1], entries[2]]);
    assert(fields(entries) == fields(entries.drop_last()).insert(entries[3].0, entries[3].1));
    assert("completed"@.len() == 9);
    assert("mode"@.len() == 4);
    assert("triggered_member"@.len() == 16);
    assert("member_statuses"@.len() == 15);
    if let Some(member) = answer.triggered_member {
        let named = seq![
            ("name"@, JsonTree::Text(member.name)),
            ("agent_id"@, JsonTree::Text(member.agent_id)),
        ];
        reveal_with_fuel(fields, 3);
        assert(named.drop_last() =~= seq![named[0]]);
        assert(named.drop_last().drop_last() =~= seq![]);
    }
    if 0 <= i < answer.member_statuses.len() {
        let member = answer.member_statuses[i];
        lemma_three_fields(
            ("name"@, JsonTree::Text(member.name)),
            ("agent_id"@, JsonTree::Text(member.agent_id)),
            ("state"@, status_tree(member.state)),
        );
    }
    assert(fields(entries).dom() =~= set![
        "completed"@,
        "mode"@,
        "triggered_member"@,
        "member_statuses"@,
    ]);
}

/// Whether a call that has waited still knows what it saw, unless it has used it up.
pub open spec fn knows_outcome(state: WaitModel, outcome: OutcomeModel) -> bool {
    match state.phase {
        PhaseModel::AwaitMemberStatus { outcome: known, .. } => known == outcome,
        PhaseModel::AwaitEnd { outcome: known, .. } => known == outcome,
        PhaseModel::AwaitIdle { outcome: known, .. } => known == outcome,
        PhaseModel::AwaitAnswer => true,
        PhaseModel::Finished => true,
        _ => false,
    }
}

proof fn lemma_outcome_is_known(state: WaitModel, outcome: OutcomeModel, events: Seq<EventModel>)
    requires
        well_formed(state),
        knows_outcome(state, outcome),
        admissible(state, events),
    ensures
        well_formed(after(state, events)),
        knows_outcome(after(state, events), outcome),
        after(state, events).call == state.call,
    decreases events.len(),
{
    if events.len() > 0 {
        law_a_call_stays_well_formed(state, events.first());
        lemma_outcome_is_known(next(state, events.first()).0, outcome, events.drop_first());
    }
}

/// The answer tells what came of the waiting, however many statuses were read and however many
/// hooks ran since: it is not complete where time ran out, it is where any member was waited
/// for and a status was seen, or where all were and the status of each is final, and it names
/// the member that ended the waiting only where any was waited for.
pub proof fn law_the_answer_tells_what_came_of_the_waiting(
    state: WaitModel,
    outcome: OutcomeModel,
    events: Seq<EventModel>,
    event: EventModel,
)
    requires
        state.phase is AwaitAgents,
        admissible(next(state, EventModel::Waited(Ok(outcome))).0, events),
        awaited(after(next(state, EventModel::Waited(Ok(outcome))).0, events).phase, event),
    ensures
        ({
            let later = after(next(state, EventModel::Waited(Ok(outcome))).0, events);
            let members = state.call.members;
            &&& knows_outcome(later, outcome)
            &&& later.call == state.call
            &&& next(later, event).1 matches ActionModel::WriteAnswer(answer) ==> {
                &&& answer.mode == state.call.mode
                &&& answer.member_statuses.len() == members.len()
                &&& answer.completed == (!outcome.timed_out && if state.call.mode is Any {
                    outcome.statuses.len() > 0
                } else {
                    forall|i: int|
                        0 <= i < members.len() ==> (
                        #[trigger] answer.member_statuses[i]).state.is_final
                })
                &&& match answer.triggered_member {
                    Some(member) => state.call.mode is Any && outcome.triggered_id == Some(
                        member.agent_id,
                    ) && members.contains(member),
                    None => state.call.mode is All || (outcome.triggered_id matches Some(agent_id)
                        ==> !has_member(members, agent_id)),
                }
            }
        }),
{
    let waited = next(state, EventModel::Waited(Ok(outcome))).0;
    law_a_call_stays_well_formed(state, EventModel::Waited(Ok(outcome)));
    lemma_outcome_is_known(waited, outcome, events);
    let later = after(waited, events);
    law_a_call_stays_well_formed(later, event);
    law_only_waiting_for_any_names_a_member(state.call, outcome);
    match later.phase {
        PhaseModel::AwaitEnd { reported, .. } => {
            law_completion_means_what_it_says(state.call, outcome, reported);
        },
        PhaseModel::AwaitIdle { reported, .. } => {
            law_completion_means_what_it_says(state.call, outcome, reported);
        },
        _ => {},
    }
}

/// Lists of members and of statuses hold what their models hold, each in its place.
pub proof fn law_what_lists_hold(
    members: Seq<TeamMember>,
    entries: Seq<(String, AgentStatus)>,
    i: int,
)
    ensures
        member_models(members).len() == members.len(),
        0 <= i < members.len() ==> member_models(members)[i].name == members[i].name@,
        0 <= i < members.len() ==> member_models(members)[i].agent_id == members[i].agent_id@,
        entry_models(entries).len() == entries.len(),
        0 <= i < entries.len() ==> entry_models(entries)[i].0 == entries[i].0@,
        0 <= i < entries.len() ==> entry_models(entries)[i].1 == entries[i].1@,
{
}

/// A request, what came of the waiting, and the end of it hold what their models hold, each
/// under its own name.
pub proof fn law_what_a_request_holds(request: WaitRequest, outcome: WaitOutcome, end: WaitEnd)
    ensures
        request@.sender_thread_id == request.sender_thread_id@,
        request@.call_id == request.call_id@,
        request.team matches Ok(team) ==> request@.team == Ok::<
            (Seq<char>, Seq<MemberModel>),
            ErrorModel,
        >((team.team_id@, member_models(team.members@))),
        request.team matches Err(error) ==> request@.team == Err::<
            (Seq<char>, Seq<MemberModel>),
            ErrorModel,
        >(error@),
        request@.mode == request.mode,
        request.timeout_ms matches Ok(timeout_ms) ==> request@.timeout_ms == Ok::<i64, ErrorModel>(
            timeout_ms,
        ),
        request.timeout_ms matches Err(error) ==> request@.timeout_ms == Err::<i64, ErrorModel>(
            error@,
        ),
        outcome@.statuses == entry_models(outcome.statuses@),
        outcome@.triggered_id == opt_text(outcome.triggered_id),
        outcome@.timed_out == outcome.timed_out,
        end@.sender_thread_id == end.sender_thread_id@,
        end@.call_id == end.call_id@,
        end@.members == member_models(end.members@),
        end@.statuses == status_map(entry_models(end.statuses@)),
{
}

/// An answer holds what its model holds: the members with their statuses, each in its place,
/// and the member that ended the waiting.
pub proof fn law_what_an_answer_holds(answer: WaitTeamResult, i: int)
    ensures
        answer@.completed == answer.completed,
        answer@.mode == answer.mode,
        answer@.triggered_member is Some <==> answer.triggered_member is Some,
        answer.triggered_member matches Some(member) ==> answer@.triggered_member->0.name
            == member.name@ && answer@.triggered_member->0.agent_id == member.agent_id@,
        answer@.member_statuses.len() == answer.member_statuses@.len(),
        0 <= i < answer.member_statuses@.len() ==> ({
            let held = answer.member_statuses@[i];
            let model = answer@.member_statuses[i];
            &&& model.name == held.name@
            &&& model.agent_id == held.agent_id@
            &&& model.state == held.state@
        }),
{
}

/// An action is the one that its model is, and holds what its model holds.
pub proof fn law_what_an_action_holds(action: WaitAction)
    ensures
        action@ matches ActionModel::SendBegin {
            sender_thread_id,
            call_id,
            receiver_thread_ids,
            members,
        } ==> (action matches WaitAction::SendBegin {
            sender_thread_id: sender,
            call_id: call,
            receiver_thread_ids: receivers,
            members: team,
        } && sender@ == sender_thread_id && call@ == call_id && texts(receivers@)
            == receiver_thread_ids && member_models(team@) == members),
        action@ matches ActionModel::WaitForAgents { agent_ids: awaited_ids, timeout_ms, mode }
            ==> (action matches WaitAction::WaitForAgents {
            agent_ids: ids,
            timeout_ms: limit,
            mode: held,
        } && texts(ids@) == awaited_ids && limit == timeout_ms && held == mode),
        action@ matches ActionModel::ReadStatus { agent_id } ==> (action
            matches WaitAction::ReadStatus { agent_id: agent } && agent@ == agent_id),
        action@ matches ActionModel::SendEnd(end) ==> (action matches WaitAction::SendEnd(held)
            && held@ == end),
        action@ matches ActionModel::RunIdleHooks { team_id, member_name } ==> (action
            matches WaitAction::RunIdleHooks { team_id: team, member_name: name } && team@
            == team_id && name@ == member_name),
        action@ matches ActionModel::WriteAnswer(answer) ==> (action
            matches WaitAction::WriteAnswer(held) && held@ == answer),
        action@ matches ActionModel::Finish(result) ==> (action matches WaitAction::Finish(held)
            && output_result(held) == result),
{
}

/// An event is modelled as the one that it is, with what it holds.
pub proof fn law_what_an_event_holds(event: WaitEvent)
    ensures
        event is Done ==> event@ is Done,
        event matches WaitEvent::Waited(Ok(outcome)) ==> event@ == EventModel::Waited(Ok(outcome@)),
        event matches WaitEvent::Waited(Err(failure)) ==> event@ == EventModel::Waited(
            Err(FailureModel { agent_id: failure.agent_id@, error: failure.error@ }),
        ),
        event matches WaitEvent::Status(status) ==> event@ == EventModel::Status(status@),
        event matches WaitEvent::IdleHooksRan(objection) ==> event@ == EventModel::IdleHooksRan(
            opt_text(objection),
        ),
        event matches WaitEvent::AnswerWritten(written) ==> event@ == EventModel::AnswerWritten(
            text_result(written),
        ),
{
}

} // verus!
