//! Tool calls: what a call carries, and how it can fail.

use vstd::prelude::*;

use crate::permissions::PermissionProfile;
use crate::policy::AskForApproval;
use crate::policy::PolicyModel;
use crate::policy::SandboxPolicy;
use crate::text::opt_text;
use crate::text::opt_texts;
use crate::text::texts;

verus! {

/// The parameters of a shell call. `sandbox_permissions` is the wire name of the level that
/// the call asks for.
#[derive(Debug, PartialEq)]
pub struct ShellToolCallParams {
    pub command: Vec<String>,
    pub workdir: Option<String>,
    pub timeout_ms: Option<u64>,
    pub sandbox_permissions: Option<String>,
    pub prefix_rule: Option<Vec<String>>,
    pub additional_permissions: Option<PermissionProfile>,
    pub justification: Option<String>,
}

/// What a tool is called with.
#[derive(Debug, PartialEq)]
pub enum ToolPayload {
    Function { arguments: String },
    Custom { input: String },
    LocalShell { params: ShellToolCallParams },
    Mcp { server: String, tool: String, raw_arguments: String },
}

/// The model of `ShellToolCallParams`.
pub ghost struct ShellParamsModel {
    pub command: Seq<Seq<char>>,
    pub workdir: Option<Seq<char>>,
    pub timeout_ms: Option<u64>,
    pub sandbox_permissions: Option<Seq<char>>,
    pub prefix_rule: Option<Seq<Seq<char>>>,
    pub additional_permissions: Option<PermissionProfile>,
    pub justification: Option<Seq<char>>,
}

/// The model of `ToolPayload`.
pub ghost enum PayloadModel {
    Function { arguments: Seq<char> },
    Custom { input: Seq<char> },
    LocalShell { params: ShellParamsModel },
    Mcp { server: Seq<char>, tool: Seq<char>, raw_arguments: Seq<char> },
}

impl View for ShellToolCallParams {
    type V = ShellParamsModel;

    open spec fn view(&self) -> ShellParamsModel {
        ShellParamsModel {
            command: texts(self.command@),
            workdir: opt_text(self.workdir),
            timeout_ms: self.timeout_ms,
            sandbox_permissions: opt_text(self.sandbox_permissions),
            prefix_rule: opt_texts(self.prefix_rule),
            additional_permissions: self.additional_permissions,
            justification: opt_text(self.justification),
        }
    }
}

impl View for ToolPayload {
    type V = PayloadModel;

    open spec fn view(&self) -> PayloadModel {
        match self {
            ToolPayload::Function { arguments } => PayloadModel::Function {
                arguments: arguments@,
            },
            ToolPayload::Custom { input } => PayloadModel::Custom { input: input@ },
            ToolPayload::LocalShell { params } => PayloadModel::LocalShell { params: params@ },
            ToolPayload::Mcp { server, tool, raw_arguments } => PayloadModel::Mcp {
                server: server@,
                tool: tool@,
                raw_arguments: raw_arguments@,
            },
        }
    }
}

/// How a tool call fails: with a message for the model, or for good.
#[derive(Debug, PartialEq, Eq)]
pub enum FunctionCallError {
    RespondToModel(String),
    Fatal(String),
}

/// The model of `FunctionCallError`.
pub ghost enum ErrorModel {
    RespondToModel(Seq<char>),
    Fatal(Seq<char>),
}

impl View for FunctionCallError {
    type V = ErrorModel;

    open spec fn view(&self) -> ErrorModel {
        match self {
            FunctionCallError::RespondToModel(message) => ErrorModel::RespondToModel(message@),
            FunctionCallError::Fatal(message) => ErrorModel::Fatal(message@),
        }
    }
}

/// The part of a turn that tool calls read. `sandbox_tag` is the name under which metrics
/// report the sandbox that is in force.
#[derive(Debug)]
pub struct TurnContext {
    pub session_id: String,
    pub cwd: String,
    pub approval_policy: AskForApproval,
    pub sandbox_policy: SandboxPolicy,
    pub sandbox_tag: String,
}

/// A call of a tool.
#[derive(Debug)]
pub struct ToolInvocation {
    pub turn: TurnContext,
    pub call_id: String,
    pub tool_name: String,
    pub payload: ToolPayload,
}

/// The model of `ToolInvocation`.
pub ghost struct InvocationModel {
    pub session_id: Seq<char>,
    pub cwd: Seq<char>,
    pub approval_policy: AskForApproval,
    pub sandbox_policy: PolicyModel,
    pub sandbox_tag: Seq<char>,
    pub call_id: Seq<char>,
    pub tool_name: Seq<char>,
    pub payload: PayloadModel,
}

impl View for ToolInvocation {
    type V = InvocationModel;

    open spec fn view(&self) -> InvocationModel {
        InvocationModel {
            session_id: self.turn.session_id@,
            cwd: self.turn.cwd@,
            approval_policy: self.turn.approval_policy,
            sandbox_policy: self.turn.sandbox_policy@,
            sandbox_tag: self.turn.sandbox_tag@,
            call_id: self.call_id@,
            tool_name: self.tool_name@,
            payload: self.payload@,
        }
    }
}

/// A payload is of the kind that its model is of, and holds the texts that its model holds.
pub proof fn law_what_a_payload_holds(payload: ToolPayload)
    ensures
        payload@ matches PayloadModel::Function { arguments } ==> (payload
            matches ToolPayload::Function { arguments: text } && text@ == arguments),
        payload@ matches PayloadModel::Custom { input } ==> (payload matches ToolPayload::Custom {
            input: text,
        } && text@ == input),
        payload@ matches PayloadModel::LocalShell { params } ==> (payload
            matches ToolPayload::LocalShell { params: held } && held@ == params),
        payload@ matches PayloadModel::Mcp { server, tool, raw_arguments } ==> (payload
            matches ToolPayload::Mcp {
            server: server_text,
            tool: tool_text,
            raw_arguments: arguments_text,
        } && server_text@ == server && tool_text@ == tool && arguments_text@ == raw_arguments),
{
}

/// Shell parameters hold what their model holds, each under its own name.
pub proof fn law_what_shell_params_hold(params: ShellToolCallParams)
    ensures
        params@.command == texts(params.command@),
        params@.workdir == opt_text(params.workdir),
        params@.timeout_ms == params.timeout_ms,
        params@.sandbox_permissions == opt_text(params.sandbox_permissions),
        params@.prefix_rule == opt_texts(params.prefix_rule),
        params@.additional_permissions == params.additional_permissions,
        params@.justification == opt_text(params.justification),
{
}

/// An error is of the kind that its model is of, and has the message that its model has.
pub proof fn law_what_an_error_says(error: FunctionCallError)
    ensures
        error@ matches ErrorModel::RespondToModel(message) ==> (error
            matches FunctionCallError::RespondToModel(text) && text@ == message),
        error@ matches ErrorModel::Fatal(message) ==> (error matches FunctionCallError::Fatal(text)
            && text@ == message),
{
}

/// A call holds what its model holds, part of it in its turn.
pub proof fn law_what_a_call_holds(invocation: ToolInvocation)
    ensures
        invocation@.session_id == invocation.turn.session_id@,
        invocation@.cwd == invocation.turn.cwd@,
        invocation@.approval_policy == invocation.turn.approval_policy,
        invocation@.sandbox_policy == invocation.turn.sandbox_policy@,
        invocation@.sandbox_tag == invocation.turn.sandbox_tag@,
        invocation@.call_id == invocation.call_id@,
        invocation@.tool_name == invocation.tool_name@,
        invocation@.payload == invocation.payload@,
{
}

} // verus!
