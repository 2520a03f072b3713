//! Hooks around a tool call: what they are told, and what their answers add up to.

use vstd::prelude::*;
use vstd::string::*;

use crate::context::ErrorModel;
use crate::context::FunctionCallError;
use crate::context::InvocationModel;
use crate::context::ToolInvocation;
use crate::json::fields;
use crate::json::named_trees_of;
use crate::json::Json;
use crate::json::JsonTree;
use crate::policy::approval_policy_for_hooks;
use crate::policy::approval_tag;
use crate::text::opt_text;
use crate::text::texts;
use crate::tool_input::hook_tool_input;
use crate::tool_input::lemma_three_fields;
use crate::tool_input::object;
use crate::tool_input::payload_input;

verus! {

/// The moment in a tool call at which hooks run.
#[derive(Debug, PartialEq)]
pub enum HookEvent {
    PreToolUse { tool_name: String, tool_input: Json, tool_use_id: String },
    PostToolUse { tool_name: String, tool_input: Json, tool_response: Json, tool_use_id: String },
    PostToolUseFailure {
        tool_name: String,
        tool_input: Json,
        tool_use_id: String,
        error: String,
        is_interrupt: Option<bool>,
    },
}

/// What hooks are told.
#[derive(Debug, PartialEq)]
pub struct HookPayload {
    pub session_id: String,
    pub transcript_path: Option<String>,
    pub cwd: String,
    pub permission_mode: String,
    pub hook_event: HookEvent,
}

/// The model of `HookEvent`.
pub ghost enum HookEventModel {
    PreToolUse { tool_name: Seq<char>, tool_input: JsonTree, tool_use_id: Seq<char> },
    PostToolUse {
        tool_name: Seq<char>,
        tool_input: JsonTree,
        tool_response: JsonTree,
        tool_use_id: Seq<char>,
    },
    PostToolUseFailure {
        tool_name: Seq<char>,
        tool_input: JsonTree,
        tool_use_id: Seq<char>,
        error: Seq<char>,
        is_interrupt: Option<bool>,
    },
}

/// The model of `HookPayload`.
pub ghost struct HookPayloadModel {
    pub session_id: Seq<char>,
    pub transcript_path: Option<Seq<char>>,
    pub cwd: Seq<char>,
    pub permission_mode: Seq<char>,
    pub hook_event: HookEventModel,
}

impl View for HookEvent {
    type V = HookEventModel;

    open spec fn view(&self) -> HookEventModel {
        match self {
            HookEvent::PreToolUse { tool_name, tool_input, tool_use_id } =>
                HookEventModel::PreToolUse {
                tool_name: tool_name@,
                tool_input: tool_input.tree(),
                tool_use_id: tool_use_id@,
            },
            HookEvent::PostToolUse { tool_name, tool_input, tool_response, tool_use_id } =>
                HookEventModel::PostToolUse {
                tool_name: tool_name@,
                tool_input: tool_input.tree(),
                tool_response: tool_response.tree(),
                tool_use_id: tool_use_id@,
            },
            HookEvent::PostToolUseFailure {
                tool_name,
                tool_input,
                tool_use_id,
                error,
                is_interrupt,
            } => HookEventModel::PostToolUseFailure {
                tool_name: tool_name@,
                tool_input: tool_input.tree(),
                tool_use_id: tool_use_id@,
                error: error@,
                is_interrupt: *is_interrupt,
            },
        }
    }
}

impl View for HookPayload {
    type V = HookPayloadModel;

    open spec fn view(&self) -> HookPayloadModel {
        HookPayloadModel {
            session_id: self.session_id@,
            transcript_path: opt_text(self.transcript_path),
            cwd: self.cwd@,
            permission_mode: self.permission_mode@,
            hook_event: self.hook_event@,
        }
    }
}

/// Whether a hook lets the action go on.
#[derive(Debug, PartialEq, Eq)]
pub enum HookResultControl {
    Continue,
    Block { reason: String },
}

/// What a hook answered. An `error` reports that the hook itself failed, which stops nothing.
#[derive(Debug, PartialEq)]
pub struct HookResult {
    pub error: Option<String>,
    pub additional_context: Vec<String>,
    pub updated_input: Option<Json>,
    pub control: HookResultControl,
}

/// A hook and its answer.
#[derive(Debug, PartialEq)]
pub struct HookOutcome {
    pub hook_name: String,
    pub result: HookResult,
}

/// The model of `HookOutcome`.
pub ghost struct OutcomeModel {
    pub hook_name: Seq<char>,
    pub error: Option<Seq<char>>,
    pub additional_context: Seq<Seq<char>>,
    pub updated_input: Option<JsonTree>,
    pub block_reason: Option<Seq<char>>,
}

impl View for HookOutcome {
    type V = OutcomeModel;

    open spec fn view(&self) -> OutcomeModel {
        OutcomeModel {
            hook_name: self.hook_name@,
            error: opt_text(self.result.error),
            additional_context: texts(self.result.additional_context@),
            updated_input: opt_tree(self.result.updated_input),
            block_reason: match self.result.control {
                HookResultControl::Block { reason } => Some(reason@),
                HookResultControl::Continue => None,
            },
        }
    }
}

/// The value that optional JSON data stands for.
pub open spec fn opt_tree(json: Option<Json>) -> Option<JsonTree> {
    match json {
        Some(j) => Some(j.tree()),
        None => None,
    }
}

/// What a list of outcomes holds.
pub open spec fn outcome_models(outcomes: Seq<HookOutcome>) -> Seq<OutcomeModel> {
    Seq::new(outcomes.len(), |i: int| outcomes[i]@)
}

/// A hook that blocks, and why.
pub ghost struct BlockModel {
    pub hook_name: Seq<char>,
    pub reason: Seq<char>,
}

/// The position of the first hook that blocks, or the number of hooks where none does.
pub open spec fn first_block(outcomes: Seq<OutcomeModel>) -> nat
    decreases outcomes.len(),
{
    if outcomes.len() == 0 {
        0
    } else if first_block(outcomes.drop_last()) < outcomes.len() - 1 {
        first_block(outcomes.drop_last())
    } else if outcomes.last().block_reason is Some {
        (outcomes.len() - 1) as nat
    } else {
        outcomes.len()
    }
}

/// The first hook that blocks.
pub open spec fn blocking(outcomes: Seq<OutcomeModel>) -> Option<BlockModel> {
    let i = first_block(outcomes);
    if i < outcomes.len() {
        Some(
            BlockModel {
                hook_name: outcomes[i as int].hook_name,
                reason: outcomes[i as int].block_reason->0,
            },
        )
    } else {
        None
    }
}

/// The outcomes up to the first hook that blocks, that one included.
pub open spec fn until_block(outcomes: Seq<OutcomeModel>) -> Seq<OutcomeModel> {
    if first_block(outcomes) < outcomes.len() {
        outcomes.take(first_block(outcomes) as int + 1)
    } else {
        outcomes
    }
}

/// The context that hooks add, in the order of the hooks.
pub open spec fn added_context(outcomes: Seq<OutcomeModel>) -> Seq<Seq<char>>
    decreases outcomes.len(),
{
    if outcomes.len() == 0 {
        Seq::empty()
    } else {
        added_context(outcomes.drop_last()) + outcomes.last().additional_context
    }
}

/// The input that hooks ask for: the last one that any of them gives.
pub open spec fn last_update(outcomes: Seq<OutcomeModel>) -> Option<JsonTree>
    decreases outcomes.len(),
{
    if outcomes.len() == 0 {
        None
    } else if outcomes.last().updated_input is Some {
        outcomes.last().updated_input
    } else {
        last_update(outcomes.drop_last())
    }
}

/// A hook that blocks, and why.
#[derive(Debug, PartialEq, Eq)]
pub struct HookBlock {
    pub hook_name: String,
    pub reason: String,
}

impl View for HookBlock {
    type V = BlockModel;

    open spec fn view(&self) -> BlockModel {
        BlockModel { hook_name: self.hook_name@, reason: self.reason@ }
    }
}

/// What an optional block holds.
pub open spec fn opt_block(block: Option<HookBlock>) -> Option<BlockModel> {
    match block {
        Some(b) => Some(b@),
        None => None,
    }
}

/// What the hooks before a tool call add up to.
#[derive(Debug, PartialEq)]
pub struct PreToolUseVerdict {
    pub additional_context: Vec<String>,
    pub updated_input: Option<Json>,
    pub blocked: Option<HookBlock>,
}

/// What the hooks after a tool call add up to.
#[derive(Debug, PartialEq, Eq)]
pub struct PostToolUseVerdict {
    pub additional_context: Vec<String>,
    pub blocked: Option<HookBlock>,
}

proof fn lemma_first_block_bound(outcomes: Seq<OutcomeModel>)
    ensures
        first_block(outcomes) <= outcomes.len(),
    decreases outcomes.len(),
{
    if outcomes.len() > 0 {
        lemma_first_block_bound(outcomes.drop_last());
    }
}

/// Once a prefix blocks, what follows changes nothing about the first block.
proof fn lemma_first_block_of_prefix(outcomes: Seq<OutcomeModel>, n: int)
    requires
        0 <= n <= outcomes.len(),
        first_block(outcomes.take(n)) < n,
    ensures
        first_block(outcomes) == first_block(outcomes.take(n)),
    decreases outcomes.len(),
{
    if n == outcomes.len() {
        assert(outcomes.take(n) =~= outcomes);
    } else {
        assert(outcomes.drop_last().take(n) =~= outcomes.take(n));
        lemma_first_block_of_prefix(outcomes.drop_last(), n);
    }
}

/// Adds up the answers of the hooks before a tool call. Hooks are heard in order, and the
/// first that blocks is the last that is heard.
pub fn pre_tool_use_verdict(outcomes: Vec<HookOutcome>) -> (verdict: PreToolUseVerdict)
    ensures
        ({
            let all = outcome_models(outcomes@);
            let heard = until_block(all);
            &&& texts(verdict.additional_context@) == added_context(heard)
            &&& opt_tree(verdict.updated_input) == last_update(heard)
            &&& opt_block(verdict.blocked) == blocking(all)
        }),
{
    let ghost all = outcome_models(outcomes@);
    let mut additional_context: Vec<String> = Vec::new();
    let mut updated_input: Option<Json> = None;
    let mut blocked: Option<HookBlock> = None;
    let ghost mut heard: int = 0;
    assert(texts(additional_context@) =~= added_context(all.take(0)));
    for outcome in it: outcomes
        invariant
            it.seq() == outcomes@,
            all == outcome_models(outcomes@),
            0 <= heard <= it.index() <= all.len(),
            blocked is None ==> heard == it.index() && first_block(all.take(heard)) == heard,
            blocked is Some ==> heard > 0 && first_block(all.take(heard)) == heard - 1
                && opt_block(blocked) == Some(
                BlockModel {
                    hook_name: all[heard - 1].hook_name,
                    reason: all[heard - 1].block_reason->0,
                },
            ),
            texts(additional_context@) == added_context(all.take(heard)),
            opt_tree(updated_input) == last_update(all.take(heard)),
    {
        if blocked.is_none() {
            let ghost now = all.take(heard + 1);
            assert(now.drop_last() =~= all.take(heard));
            assert(now.last() == outcome@);
            let HookOutcome { hook_name, result } = outcome;
            let HookResult { error: _, additional_context: context, updated_input: update, control } =
                result;
            let ghost before = additional_context@;
            let mut context = context;
            let ghost added = context@;
            additional_context.append(&mut context);
            assert(texts(additional_context@) =~= texts(before) + texts(added));
            if let Some(value) = update {
                updated_input = Some(value);
            }
            if let HookResultControl::Block { reason } = control {
                blocked = Some(HookBlock { hook_name, reason });
            }
            proof {
                heard = heard + 1;
            }
        }
    }
    proof {
        lemma_first_block_bound(all);
        if blocked is Some {
            lemma_first_block_of_prefix(all, heard);
            assert(until_block(all) =~= all.take(heard));
        } else {
            assert(all.take(heard) =~= all);
        }
    }
    PreToolUseVerdict { additional_context, updated_input, blocked }
}

/// Adds up the answers of the hooks after a tool call. All of them are heard for the context
/// that they add; the first that blocks counts.
pub fn post_tool_use_verdict(outcomes: Vec<HookOutcome>) -> (verdict: PostToolUseVerdict)
    ensures
        texts(verdict.additional_context@) == added_context(outcome_models(outcomes@)),
        opt_block(verdict.blocked) == blocking(outcome_models(outcomes@)),
{
    let ghost all = outcome_models(outcomes@);
    let mut additional_context: Vec<String> = Vec::new();
    let mut blocked: Option<HookBlock> = None;
    assert(texts(additional_context@) =~= added_context(all.take(0)));
    for outcome in it: outcomes
        invariant
            it.seq() == outcomes@,
            all == outcome_models(outcomes@),
            it.index() <= all.len(),
            opt_block(blocked) == blocking(all.take(it.index())),
            texts(additional_context@) == added_context(all.take(it.index())),
    {
        let ghost now = all.take(it.index() + 1);
        assert(now.drop_last() =~= all.take(it.index()));
        assert(now.last() == outcome@);
        proof {
            lemma_first_block_bound(all.take(it.index()));
        }
        let HookOutcome { hook_name, result } = outcome;
        let HookResult { error: _, additional_context: context, updated_input: _, control } = result;
        if blocked.is_none() {
            if let HookResultControl::Block { reason } = control {
                blocked = Some(HookBlock { hook_name, reason });
            }
        }
        let ghost before = additional_context@;
        let mut context = context;
        let ghost added = context@;
        additional_context.append(&mut context);
        assert(texts(additional_context@) =~= texts(before) + texts(added));
    }
    assert(all.take(all.len() as int) =~= all);
    PostToolUseVerdict { additional_context, blocked }
}

/// What hooks are told at an event of a tool call.
pub open spec fn hook_payload_model(
    invocation: InvocationModel,
    transcript_path: Option<Seq<char>>,
    hook_event: HookEventModel,
) -> HookPayloadModel {
    HookPayloadModel {
        session_id: invocation.session_id,
        transcript_path,
        cwd: invocation.cwd,
        permission_mode: approval_tag(invocation.approval_policy),
        hook_event,
    }
}

/// The event before a tool call.
pub open spec fn pre_tool_use_event(invocation: InvocationModel) -> HookEventModel {
    HookEventModel::PreToolUse {
        tool_name: invocation.tool_name,
        tool_input: payload_input(invocation.payload),
        tool_use_id: invocation.call_id,
    }
}

/// The event after a tool call that succeeded.
pub open spec fn post_tool_use_event(
    invocation: InvocationModel,
    tool_response: JsonTree,
) -> HookEventModel {
    HookEventModel::PostToolUse {
        tool_name: invocation.tool_name,
        tool_input: payload_input(invocation.payload),
        tool_response,
        tool_use_id: invocation.call_id,
    }
}

/// The event after a tool call that failed.
pub open spec fn post_tool_use_failure_event(
    invocation: InvocationModel,
    error: Seq<char>,
) -> HookEventModel {
    HookEventModel::PostToolUseFailure {
        tool_name: invocation.tool_name,
        tool_input: payload_input(invocation.payload),
        tool_use_id: invocation.call_id,
        error,
        is_interrupt: None,
    }
}

/// A duration in milliseconds, cut off at what a `u64` holds.
pub open spec fn capped_millis(millis: u128) -> u64 {
    if millis <= u64::MAX {
        millis as u64
    } else {
        u64::MAX
    }
}

/// What hooks are told about how a tool call went.
pub open spec fn tool_response_tree(
    executed: bool,
    success: bool,
    millis: u128,
    mutating: bool,
    output_preview: Seq<char>,
) -> JsonTree {
    object(
        seq![
            ("executed"@, JsonTree::Bool(executed)),
            ("success"@, JsonTree::Bool(success)),
            ("duration_ms"@, JsonTree::Unsigned(capped_millis(millis))),
            ("mutating"@, JsonTree::Bool(mutating)),
            ("output_preview"@, JsonTree::Text(output_preview)),
        ],
    )
}

/// The message that a hook which blocks a tool call leaves.
pub open spec fn blocked_message(
    event: Seq<char>,
    block: BlockModel,
    tool_name: Seq<char>,
) -> Seq<char> {
    event + " hook '"@ + block.hook_name + "' blocked tool '"@ + tool_name + "': "@ + block.reason
}

/// The error with which a tool call ends that hooks have blocked.
pub open spec fn block_error(
    event: Seq<char>,
    block: Option<BlockModel>,
    tool_name: Seq<char>,
) -> Option<ErrorModel> {
    match block {
        Some(b) => Some(ErrorModel::RespondToModel(blocked_message(event, b, tool_name))),
        None => None,
    }
}

/// What an optional error holds.
pub open spec fn opt_error(error: Option<FunctionCallError>) -> Option<ErrorModel> {
    match error {
        Some(e) => Some(e@),
        None => None,
    }
}

/// What hooks are told at an event of a tool call.
fn hook_payload(
    invocation: &ToolInvocation,
    transcript_path: Option<String>,
    hook_event: HookEvent,
) -> (payload: HookPayload)
    ensures
        payload@ == hook_payload_model(invocation@, opt_text(transcript_path), hook_event@),
{
    HookPayload {
        session_id: invocation.turn.session_id.clone(),
        transcript_path,
        cwd: invocation.turn.cwd.clone(),
        permission_mode: approval_policy_for_hooks(invocation.turn.approval_policy).to_string(),
        hook_event,
    }
}

/// What hooks are told before a tool call.
pub fn pre_tool_use_payload(invocation: &ToolInvocation, transcript_path: Option<String>) -> (payload:
    HookPayload)
    ensures
        payload@ == hook_payload_model(
            invocation@,
            opt_text(transcript_path),
            pre_tool_use_event(invocation@),
        ),
{
    let event = HookEvent::PreToolUse {
        tool_name: invocation.tool_name.clone(),
        tool_input: hook_tool_input(&invocation.payload),
        tool_use_id: invocation.call_id.clone(),
    };
    hook_payload(invocation, transcript_path, event)
}

/// A duration in milliseconds, cut off at what a `u64` holds.
pub fn saturating_millis(millis: u128) -> (result: u64)
    ensures
        result == capped_millis(millis),
{
    if millis <= u64::MAX as u128 {
        millis as u64
    } else {
        u64::MAX
    }
}

/// What hooks are told about how a tool call went.
pub fn tool_response(
    executed: bool,
    success: bool,
    millis: u128,
    mutating: bool,
    output_preview: &str,
) -> (response: Json)
    ensures
        response.tree() == tool_response_tree(
            executed,
            success,
            millis,
            mutating,
            output_preview@,
        ),
{
    let mut entries: Vec<(String, Json)> = Vec::new();
    entries.push(("executed".to_string(), Json::Bool(executed)));
    entries.push(("success".to_string(), Json::Bool(success)));
    entries.push(("duration_ms".to_string(), Json::Unsigned(saturating_millis(millis))));
    entries.push(("mutating".to_string(), Json::Bool(mutating)));
    entries.push(("output_preview".to_string(), Json::Text(output_preview.to_string())));
    proof {
        let expected = seq![
            ("executed"@, JsonTree::Bool(executed)),
            ("success"@, JsonTree::Bool(success)),
            ("duration_ms"@, JsonTree::Unsigned(capped_millis(millis))),
            ("mutating"@, JsonTree::Bool(mutating)),
            ("output_preview"@, JsonTree::Text(output_preview@)),
        ];
        assert(named_trees_of(entries@) =~= expected);
    }
    Json::Object(entries)
}

/// What hooks are told after a tool call that succeeded.
pub fn post_tool_use_payload(
    invocation: &ToolInvocation,
    transcript_path: Option<String>,
    response: Json,
) -> (payload: HookPayload)
    ensures
        payload@ == hook_payload_model(
            invocation@,
            opt_text(transcript_path),
            post_tool_use_event(invocation@, response.tree()),
        ),
{
    let event = HookEvent::PostToolUse {
        tool_name: invocation.tool_name.clone(),
        tool_input: hook_tool_input(&invocation.payload),
        tool_response: response,
        tool_use_id: invocation.call_id.clone(),
    };
    hook_payload(invocation, transcript_path, event)
}

/// What hooks are told after a tool call that failed.
pub fn post_tool_use_failure_payload(
    invocation: &ToolInvocation,
    transcript_path: Option<String>,
    error: String,
) -> (payload: HookPayload)
    ensures
        payload@ == hook_payload_model(
            invocation@,
            opt_text(transcript_path),
            post_tool_use_failure_event(invocation@, error@),
        ),
{
    let event = HookEvent::PostToolUseFailure {
        tool_name: invocation.tool_name.clone(),
        tool_input: hook_tool_input(&invocation.payload),
        tool_use_id: invocation.call_id.clone(),
        error,
        is_interrupt: None,
    };
    hook_payload(invocation, transcript_path, event)
}

/// The error with which a tool call ends that hooks have blocked.
pub fn hook_block_error(event: &str, block: Option<HookBlock>, tool_name: &str) -> (error: Option<
    FunctionCallError,
>)
    ensures
        opt_error(error) == block_error(event@, opt_block(block), tool_name@),
{
    match block {
        Some(block) => {
            let mut message = event.to_string();
            message.append(" hook '");
            message.append(block.hook_name.as_str());
            message.append("' blocked tool '");
            message.append(tool_name);
            message.append("': ");
            message.append(block.reason.as_str());
            Some(FunctionCallError::RespondToModel(message))
        },
        None => None,
    }
}

/// Hooks block exactly where one of them asks to, and the first that does is the one that
/// counts.
pub proof fn law_first_block_counts(outcomes: Seq<OutcomeModel>)
    ensures
        blocking(outcomes) is Some <==> exists|i: int|
            0 <= i < outcomes.len() && (#[trigger] outcomes[i]).block_reason is Some,
        blocking(outcomes) matches Some(block) ==> exists|i: int|
            {
                &&& 0 <= i < outcomes.len()
                &&& (#[trigger] outcomes[i]).hook_name == block.hook_name
                &&& outcomes[i].block_reason == Some(block.reason)
                &&& forall|j: int| 0 <= j < i ==> (#[trigger] outcomes[j]).block_reason is None
            },
    decreases outcomes.len(),
{
    lemma_first_block_bound(outcomes);
    if outcomes.len() > 0 {
        let before = outcomes.drop_last();
        law_first_block_counts(before);
        lemma_first_block_bound(before);
        assert(forall|j: int| 0 <= j < before.len() ==> outcomes[j] == #[trigger] before[j]);
        if blocking(before) is Some {
            let i = choose|i: int|
                {
                    &&& 0 <= i < before.len()
                    &&& (#[trigger] before[i]).hook_name == blocking(before)->0.hook_name
                    &&& before[i].block_reason == Some(blocking(before)->0.reason)
                    &&& forall|j: int| 0 <= j < i ==> (#[trigger] before[j]).block_reason is None
                };
            assert(outcomes[i].block_reason is Some);
            assert forall|j: int| 0 <= j < i implies (#[trigger] outcomes[j]).block_reason is None by {
                assert(before[j].block_reason is None);
            }
        } else {
            assert forall|j: int| 0 <= j < before.len() implies (
            #[trigger] outcomes[j]).block_reason is None by {
                assert(before[j].block_reason is None);
            }
            if outcomes.last().block_reason is Some {
                assert(outcomes[outcomes.len() - 1].block_reason is Some);
            }
        }
    }
}

/// Before a tool call, a hook behind one that blocks has no effect.
pub proof fn law_hooks_behind_a_block_are_unheard(
    outcomes: Seq<OutcomeModel>,
    behind: Seq<OutcomeModel>,
)
    requires
        blocking(outcomes) is Some,
    ensures
        blocking(outcomes + behind) == blocking(outcomes),
        until_block(outcomes + behind) == until_block(outcomes),
{
    let all = outcomes + behind;
    assert(all.take(outcomes.len() as int) =~= outcomes);
    lemma_first_block_of_prefix(all, outcomes.len() as int);
    assert(until_block(all) =~= until_block(outcomes));
}

/// Two lists of outcomes that differ in nothing but the errors that hooks report.
pub open spec fn same_but_for_errors(a: Seq<OutcomeModel>, b: Seq<OutcomeModel>) -> bool {
    &&& a.len() == b.len()
    &&& forall|i: int|
        0 <= i < a.len() ==> b[i] == (OutcomeModel { error: b[i].error, ..#[trigger] a[i] })
}

/// A hook that fails stops nothing: the errors that hooks report change neither the context
/// that is added, nor the input, nor whether the call is blocked.
pub proof fn law_hook_errors_stop_nothing(a: Seq<OutcomeModel>, b: Seq<OutcomeModel>)
    requires
        same_but_for_errors(a, b),
    ensures
        added_context(a) == added_context(b),
        last_update(a) == last_update(b),
        first_block(a) == first_block(b),
        blocking(a) == blocking(b),
        added_context(until_block(a)) == added_context(until_block(b)),
        last_update(until_block(a)) == last_update(until_block(b)),
    decreases a.len(),
{
    lemma_errors_irrelevant(a, b);
    lemma_first_block_bound(a);
    let n = first_block(a) as int;
    if n < a.len() {
        assert(same_but_for_errors(a.take(n + 1), b.take(n + 1)));
        lemma_errors_irrelevant(a.take(n + 1), b.take(n + 1));
    }
}

proof fn lemma_errors_irrelevant(a: Seq<OutcomeModel>, b: Seq<OutcomeModel>)
    requires
        same_but_for_errors(a, b),
    ensures
        added_context(a) == added_context(b),
        last_update(a) == last_update(b),
        first_block(a) == first_block(b),
    decreases a.len(),
{
    if a.len() > 0 {
        assert(a[a.len() - 1] == a.last());
        lemma_errors_irrelevant(a.drop_last(), b.drop_last());
    }
}

/// After a tool call, an input that a hook asks for has no effect: only the hooks before the
/// call can rewrite it.
pub proof fn law_input_is_not_rewritten_after_the_call(
    a: Seq<OutcomeModel>,
    b: Seq<OutcomeModel>,
)
    requires
        a.len() == b.len(),
        forall|i: int|
            0 <= i < a.len() ==> b[i] == (OutcomeModel {
                updated_input: b[i].updated_input,
                ..#[trigger] a[i]
            }),
    ensures
        added_context(a) == added_context(b),
        first_block(a) == first_block(b),
        blocking(a) == blocking(b),
    decreases a.len(),
{
    lemma_first_block_bound(a);
    if a.len() > 0 {
        assert(a[a.len() - 1] == a.last());
        law_input_is_not_rewritten_after_the_call(a.drop_last(), b.drop_last());
    }
}

/// The input that hooks ask for is that of the last of them that gives one, whatever else that
/// hook answers; there is none exactly where no hook gives one.
pub proof fn law_the_last_input_counts(outcomes: Seq<OutcomeModel>)
    ensures
        last_update(outcomes) is None <==> forall|i: int|
            0 <= i < outcomes.len() ==> (#[trigger] outcomes[i]).updated_input is None,
        last_update(outcomes) is Some ==> exists|i: int|
            {
                &&& 0 <= i < outcomes.len()
                &&& (#[trigger] outcomes[i]).updated_input == last_update(outcomes)
                &&& forall|j: int|
                    i < j < outcomes.len() ==> (#[trigger] outcomes[j]).updated_input is None
            },
    decreases outcomes.len(),
{
    if outcomes.len() > 0 {
        let before = outcomes.drop_last();
        let n = outcomes.len() - 1;
        assert(forall|j: int| 0 <= j < n ==> outcomes[j] == #[trigger] before[j]);
        law_the_last_input_counts(before);
        if outcomes[n].updated_input is Some {
            assert(outcomes[n].updated_input == last_update(outcomes));
        } else if last_update(before) is Some {
            let i = choose|i: int|
                {
                    &&& 0 <= i < before.len()
                    &&& (#[trigger] before[i]).updated_input == last_update(before)
                    &&& forall|j: int|
                        i < j < before.len() ==> (#[trigger] before[j]).updated_input is None
                };
            assert(outcomes[i].updated_input == last_update(outcomes));
            assert forall|j: int| i < j < outcomes.len() implies (
            #[trigger] outcomes[j]).updated_input is None by {
                if j < n {
                    assert(before[j].updated_input is None);
                }
            }
        } else {
            assert forall|j: int| 0 <= j < outcomes.len() implies (
            #[trigger] outcomes[j]).updated_input is None by {
                if j < n {
                    assert(before[j].updated_input is None);
                }
            }
        }
    }
}

/// The context that hooks add is that of each of them, all of it, one after the other.
pub proof fn law_context_is_added_in_order(a: Seq<OutcomeModel>, b: Seq<OutcomeModel>)
    ensures
        added_context(a + b) == added_context(a) + added_context(b),
    decreases b.len(),
{
    let all = a + b;
    if b.len() == 0 {
        assert(all =~= a);
        assert(added_context(a) + added_context(b) =~= added_context(a));
    } else {
        assert(all.drop_last() =~= a + b.drop_last());
        assert(all.last() == b.last());
        law_context_is_added_in_order(a, b.drop_last());
        assert(added_context(all) =~= added_context(a) + added_context(b));
    }
}

/// One hook adds the context that it gives, whatever else it answers, and no hook adds none.
pub proof fn law_a_hook_adds_its_context(outcome: OutcomeModel)
    ensures
        added_context(seq![outcome]) == outcome.additional_context,
        added_context(Seq::empty()) == Seq::<Seq<char>>::empty(),
{
    reveal_with_fuel(added_context, 2);
    assert(seq![outcome].drop_last() =~= Seq::empty());
    assert(added_context(seq![outcome]) =~= outcome.additional_context);
}

/// The hooks that are heard before a call are the first ones: all of them where none blocks,
/// and else those up to the first that does, that one with them.
pub proof fn law_who_is_heard_before_a_call(outcomes: Seq<OutcomeModel>)
    ensures
        (forall|i: int| 0 <= i < outcomes.len() ==> (#[trigger] outcomes[i]).block_reason is None)
            ==> until_block(outcomes) == outcomes,
        forall|n: int|
            0 <= n < outcomes.len() && (#[trigger] outcomes[n]).block_reason is Some && (forall|
                j: int,
            |
                0 <= j < n ==> (#[trigger] outcomes[j]).block_reason is None) ==> until_block(
                outcomes,
            ) == outcomes.take(n + 1),
{
    lemma_first_block_bound(outcomes);
    if forall|i: int| 0 <= i < outcomes.len() ==> (#[trigger] outcomes[i]).block_reason is None {
        lemma_unblocked(outcomes);
    }
    assert forall|n: int|
        0 <= n < outcomes.len() && (#[trigger] outcomes[n]).block_reason is Some && (forall|j: int|
            0 <= j < n ==> (#[trigger] outcomes[j]).block_reason is None) implies until_block(
        outcomes,
    ) == outcomes.take(n + 1) by {
        let prefix = outcomes.take(n + 1);
        assert forall|j: int| 0 <= j < n implies (
        #[trigger] prefix.drop_last()[j]).block_reason is None by {
            assert(outcomes[j].block_reason is None);
        }
        lemma_unblocked(prefix.drop_last());
        assert(prefix.last() == outcomes[n]);
        assert(first_block(prefix) == n);
        lemma_first_block_of_prefix(outcomes, n + 1);
    }
}

proof fn lemma_unblocked(outcomes: Seq<OutcomeModel>)
    requires
        forall|i: int| 0 <= i < outcomes.len() ==> (#[trigger] outcomes[i]).block_reason is None,
    ensures
        first_block(outcomes) == outcomes.len(),
    decreases outcomes.len(),
{
    if outcomes.len() > 0 {
        assert(outcomes[outcomes.len() - 1].block_reason is None);
        lemma_unblocked(outcomes.drop_last());
    }
}

/// A call that is blocked ends with a message for the model that names the event, the hook,
/// the tool and the reason; one that is not blocked has no error.
pub proof fn law_what_a_block_says(
    event: Seq<char>,
    hook_name: Seq<char>,
    reason: Seq<char>,
    tool_name: Seq<char>,
)
    ensures
        block_error(event, Some(BlockModel { hook_name, reason }), tool_name) == Some(
            ErrorModel::RespondToModel(
                event + " hook '"@ + hook_name + "' blocked tool '"@ + tool_name + "': "@ + reason,
            ),
        ),
        block_error(event, None, tool_name) is None,
{
}

/// What hooks are told at every event: the session, the transcript, the directory, the name of
/// the approval policy, and the event itself.
pub proof fn law_what_hooks_are_told(
    invocation: InvocationModel,
    transcript_path: Option<Seq<char>>,
    hook_event: HookEventModel,
)
    ensures
        ({
            let told = hook_payload_model(invocation, transcript_path, hook_event);
            &&& told.session_id == invocation.session_id
            &&& told.transcript_path == transcript_path
            &&& told.cwd == invocation.cwd
            &&& told.permission_mode == approval_tag(invocation.approval_policy)
            &&& told.hook_event == hook_event
        }),
{
}

/// What the events of a tool call tell: the tool, the identifier of the call and its input, as
/// it is at that moment, and after the call what came of it.
pub proof fn law_what_events_tell(
    invocation: InvocationModel,
    response: JsonTree,
    error: Seq<char>,
)
    ensures
        pre_tool_use_event(invocation) == (HookEventModel::PreToolUse {
            tool_name: invocation.tool_name,
            tool_input: payload_input(invocation.payload),
            tool_use_id: invocation.call_id,
        }),
        post_tool_use_event(invocation, response) == (HookEventModel::PostToolUse {
            tool_name: invocation.tool_name,
            tool_input: payload_input(invocation.payload),
            tool_response: response,
            tool_use_id: invocation.call_id,
        }),
        post_tool_use_failure_event(invocation, error) == (HookEventModel::PostToolUseFailure {
            tool_name: invocation.tool_name,
            tool_input: payload_input(invocation.payload),
            tool_use_id: invocation.call_id,
            error,
            is_interrupt: None,
        }),
{
}

/// What hooks are told about how a call went: five fields, with the duration cut off only
/// where it does not fit.
pub proof fn law_what_the_response_tells(
    executed: bool,
    success: bool,
    millis: u128,
    mutating: bool,
    output_preview: Seq<char>,
    duration_ms: u64,
)
    requires
        duration_ms == millis || (duration_ms == u64::MAX && millis > u64::MAX),
    ensures
        tool_response_tree(executed, success, millis, mutating, output_preview) == JsonTree::Object(
            map![
                "executed"@ => JsonTree::Bool(executed),
                "success"@ => JsonTree::Bool(success),
                "duration_ms"@ => JsonTree::Unsigned(duration_ms),
                "mutating"@ => JsonTree::Bool(mutating),
                "output_preview"@ => JsonTree::Text(output_preview),
            ],
        ),
{
    let entries = seq![
        ("executed"@, JsonTree::Bool(executed)),
        ("success"@, JsonTree::Bool(success)),
        ("duration_ms"@, JsonTree::Unsigned(capped_millis(millis))),
        ("mutating"@, JsonTree::Bool(mutating)),
        ("output_preview"@, JsonTree::Text(output_preview)),
    ];
    lemma_three_fields(entries[0], entries[1], entries[2]);
    let four = entries.drop_last();
    assert(four.drop_last() =~= seq![entries[0], entries[1], entries[2]]);
    assert(fields(four) == fields(four.drop_last()).insert(entries[3].0, entries[3].1));
    assert(fields(entries) == fields(four).insert(entries[4].0, entries[4].1));
}

/// An event and what hooks are told hold what their models hold, each under its own name.
pub proof fn law_what_a_hook_payload_holds(payload: HookPayload)
    ensures
        payload@.session_id == payload.session_id@,
        payload@.transcript_path == opt_text(payload.transcript_path),
        payload@.cwd == payload.cwd@,
        payload@.permission_mode == payload.permission_mode@,
        payload@.hook_event matches HookEventModel::PreToolUse {
            tool_name,
            tool_input,
            tool_use_id,
        } ==> (payload.hook_event matches HookEvent::PreToolUse {
            tool_name: name,
            tool_input: input,
            tool_use_id: id,
        } && name@ == tool_name && input.tree() == tool_input && id@ == tool_use_id),
        payload@.hook_event matches HookEventModel::PostToolUse {
            tool_name,
            tool_input,
            tool_response,
            tool_use_id,
        } ==> (payload.hook_event matches HookEvent::PostToolUse {
            tool_name: name,
            tool_input: input,
            tool_response: response,
            tool_use_id: id,
        } && name@ == tool_name && input.tree() == tool_input && response.tree() == tool_response
            && id@ == tool_use_id),
        payload@.hook_event matches HookEventModel::PostToolUseFailure {
            tool_name,
            tool_input,
            tool_use_id,
            error,
            is_interrupt,
        } ==> (payload.hook_event matches HookEvent::PostToolUseFailure {
            tool_name: name,
            tool_input: input,
            tool_use_id: id,
            error: text,
            is_interrupt: interrupt,
        } && name@ == tool_name && input.tree() == tool_input && id@ == tool_use_id && text@
            == error && interrupt == is_interrupt),
{
}

/// A hook asks for what its answer holds, and blocks exactly where its answer says so, for the
/// reason that it gives.
pub proof fn law_what_a_hook_answers(outcomes: Seq<HookOutcome>, i: int)
    requires
        0 <= i < outcomes.len(),
    ensures
        outcome_models(outcomes).len() == outcomes.len(),
        ({
            let outcome = outcomes[i];
            let model = outcome_models(outcomes)[i];
            &&& model.hook_name == outcome.hook_name@
            &&& model.error == opt_text(outcome.result.error)
            &&& model.additional_context == texts(outcome.result.additional_context@)
            &&& model.updated_input is Some <==> outcome.result.updated_input is Some
            &&& model.updated_input matches Some(tree) ==> tree
                == outcome.result.updated_input->0.tree()
            &&& model.block_reason is Some <==> outcome.result.control is Block
            &&& model.block_reason matches Some(reason) ==> reason
                == outcome.result.control->reason@
        }),
{
}

/// Optional blocks and errors are there exactly where their models are, and hold what those
/// hold.
pub proof fn law_what_blocks_and_errors_hold(
    block: Option<HookBlock>,
    error: Option<FunctionCallError>,
)
    ensures
        block is Some <==> opt_block(block) is Some,
        block is Some ==> opt_block(block)->0.hook_name == block->0.hook_name@,
        block is Some ==> opt_block(block)->0.reason == block->0.reason@,
        error is Some <==> opt_error(error) is Some,
        error is Some ==> opt_error(error)->0 == error->0@,
{
}

} // verus!
