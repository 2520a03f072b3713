//! Tools with which an agent works with other agents.

use vstd::prelude::*;

use crate::context::ErrorModel;
use crate::context::FunctionCallError;

pub mod spawn;
pub mod wait_team;

verus! {

/// How an agent is doing: its state as JSON text, and whether that state is final.
#[derive(Debug, PartialEq, Eq)]
pub struct AgentStatus {
    pub state: String,
    pub is_final: bool,
}

/// The model of `AgentStatus`.
pub ghost struct StatusModel {
    pub state: Seq<char>,
    pub is_final: bool,
}

impl View for AgentStatus {
    type V = StatusModel;

    open spec fn view(&self) -> StatusModel {
        StatusModel { state: self.state@, is_final: self.is_final }
    }
}

/// What an optional status holds.
pub open spec fn opt_status(status: Option<AgentStatus>) -> Option<StatusModel> {
    match status {
        Some(s) => Some(s@),
        None => None,
    }
}

/// What a tool answers: a text, and whether it counts as a success.
#[derive(Debug, PartialEq, Eq)]
pub struct TextOutput {
    pub text: String,
    pub success: Option<bool>,
}

/// The model of `TextOutput`.
pub ghost struct OutputModel {
    pub text: Seq<char>,
    pub success: Option<bool>,
}

impl View for TextOutput {
    type V = OutputModel;

    open spec fn view(&self) -> OutputModel {
        OutputModel { text: self.text@, success: self.success }
    }
}

/// What the result of a tool holds.
pub open spec fn output_result(result: Result<TextOutput, FunctionCallError>) -> Result<
    OutputModel,
    ErrorModel,
> {
    match result {
        Ok(output) => Ok(output@),
        Err(error) => Err(error@),
    }
}

/// Statuses and outputs hold what their models hold, and a result is a failure exactly where
/// its model is.
pub proof fn law_what_agents_and_tools_tell(
    status: AgentStatus,
    optional: Option<AgentStatus>,
    output: TextOutput,
    result: Result<TextOutput, FunctionCallError>,
)
    ensures
        status@.state == status.state@,
        status@.is_final == status.is_final,
        optional is Some <==> opt_status(optional) is Some,
        optional is Some ==> opt_status(optional)->0 == optional->0@,
        output@.text == output.text@,
        output@.success == output.success,
        result is Ok <==> output_result(result) is Ok,
        result is Ok ==> output_result(result)->Ok_0 == result->Ok_0@,
        result is Err ==> output_result(result)->Err_0 == result->Err_0@,
{
}

} // verus!
