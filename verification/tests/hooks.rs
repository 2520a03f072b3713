use codex_tools::context::FunctionCallError;
use codex_tools::context::ToolInvocation;
use codex_tools::context::ToolPayload;
use codex_tools::context::TurnContext;
use codex_tools::hooks::hook_block_error;
use codex_tools::hooks::post_tool_use_failure_payload;
use codex_tools::hooks::post_tool_use_payload;
use codex_tools::hooks::post_tool_use_verdict;
use codex_tools::hooks::pre_tool_use_payload;
use codex_tools::hooks::pre_tool_use_verdict;
use codex_tools::hooks::saturating_millis;
use codex_tools::hooks::tool_response;
use codex_tools::hooks::HookBlock;
use codex_tools::hooks::HookEvent;
use codex_tools::hooks::HookOutcome;
use codex_tools::hooks::HookPayload;
use codex_tools::hooks::HookResult;
use codex_tools::hooks::HookResultControl;
use codex_tools::json::Json;
use codex_tools::policy::approval_policy_for_hooks;
use codex_tools::policy::sandbox_policy_tag;
use codex_tools::policy::AskForApproval;
use codex_tools::policy::ReadOnlyAccess;
use codex_tools::policy::RejectConfig;
use codex_tools::policy::SandboxPolicy;

fn outcome(
    name: &str,
    context: &[&str],
    update: Option<Json>,
    block: Option<&str>,
) -> HookOutcome {
    HookOutcome {
        hook_name: name.to_string(),
        result: HookResult {
            error: None,
            additional_context: context.iter().map(|text| text.to_string()).collect(),
            updated_input: update,
            control: match block {
                Some(reason) => HookResultControl::Block { reason: reason.to_string() },
                None => HookResultControl::Continue,
            },
        },
    }
}

fn block(name: &str, reason: &str) -> HookBlock {
    HookBlock { hook_name: name.to_string(), reason: reason.to_string() }
}

fn invocation() -> ToolInvocation {
    ToolInvocation {
        turn: TurnContext {
            session_id: "session".to_string(),
            cwd: "/work".to_string(),
            approval_policy: AskForApproval::OnRequest,
            sandbox_policy: SandboxPolicy::DangerFullAccess,
            sandbox_tag: "none".to_string(),
        },
        call_id: "call-1".to_string(),
        tool_name: "dummy".to_string(),
        payload: ToolPayload::Custom { input: "go".to_string() },
    }
}

fn payload(transcript_path: Option<&str>, hook_event: HookEvent) -> HookPayload {
    HookPayload {
        session_id: "session".to_string(),
        transcript_path: transcript_path.map(str::to_string),
        cwd: "/work".to_string(),
        permission_mode: "on-request".to_string(),
        hook_event,
    }
}

#[test]
fn before_a_call_the_last_input_of_those_heard_counts() {
    let verdict = pre_tool_use_verdict(vec![
        outcome("a", &["one", "two"], Some(Json::Unsigned(1)), None),
        outcome("b", &[], None, None),
        outcome("c", &["three"], Some(Json::Unsigned(3)), None),
    ]);
    assert_eq!(verdict.additional_context, ["one", "two", "three"]);
    assert_eq!(verdict.updated_input, Some(Json::Unsigned(3)));
    assert_eq!(verdict.blocked, None);
}

#[test]
fn before_a_call_hooks_behind_a_block_are_unheard() {
    let verdict = pre_tool_use_verdict(vec![
        outcome("a", &["one"], Some(Json::Unsigned(1)), None),
        outcome("b", &["two"], Some(Json::Unsigned(2)), Some("no")),
        outcome("c", &["three"], Some(Json::Unsigned(3)), Some("never")),
    ]);
    assert_eq!(verdict.additional_context, ["one", "two"]);
    assert_eq!(verdict.updated_input, Some(Json::Unsigned(2)));
    assert_eq!(verdict.blocked, Some(block("b", "no")));
}

#[test]
fn after_a_call_every_hook_is_heard_and_the_first_block_counts() {
    let verdict = post_tool_use_verdict(vec![
        outcome("a", &["one"], None, None),
        outcome("b", &["two"], None, Some("no")),
        outcome("c", &["three"], None, Some("never")),
    ]);
    assert_eq!(verdict.additional_context, ["one", "two", "three"]);
    assert_eq!(verdict.blocked, Some(block("b", "no")));
}

#[test]
fn no_hooks_have_no_effect() {
    let before = pre_tool_use_verdict(vec![]);
    assert!(before.additional_context.is_empty());
    assert_eq!(before.updated_input, None);
    assert_eq!(before.blocked, None);
    let after = post_tool_use_verdict(vec![]);
    assert!(after.additional_context.is_empty());
    assert_eq!(after.blocked, None);
}

#[test]
fn errors_of_hooks_stop_nothing() {
    let mut failing = outcome("a", &["one"], Some(Json::Null), None);
    failing.result.error = Some("exit code 1".to_string());
    let verdict = pre_tool_use_verdict(vec![failing, outcome("b", &["two"], None, None)]);
    assert_eq!(verdict.additional_context, ["one", "two"]);
    assert_eq!(verdict.updated_input, Some(Json::Null));
    assert_eq!(verdict.blocked, None);
}

#[test]
fn a_block_names_the_hook_the_tool_and_the_reason() {
    assert_eq!(
        hook_block_error("pre_tool_use", Some(block("guard", "risky")), "shell"),
        Some(FunctionCallError::RespondToModel(
            "pre_tool_use hook 'guard' blocked tool 'shell': risky".to_string()
        ))
    );
    assert_eq!(hook_block_error("pre_tool_use", None, "shell"), None);
}

#[test]
fn hooks_are_told_about_the_call() {
    let invocation = invocation();
    assert_eq!(
        pre_tool_use_payload(&invocation, Some("/log".to_string())),
        payload(
            Some("/log"),
            HookEvent::PreToolUse {
                tool_name: "dummy".to_string(),
                tool_input: Json::Text("go".to_string()),
                tool_use_id: "call-1".to_string(),
            }
        )
    );
    assert_eq!(
        post_tool_use_payload(&invocation, None, Json::Bool(true)),
        payload(
            None,
            HookEvent::PostToolUse {
                tool_name: "dummy".to_string(),
                tool_input: Json::Text("go".to_string()),
                tool_response: Json::Bool(true),
                tool_use_id: "call-1".to_string(),
            }
        )
    );
    assert_eq!(
        post_tool_use_failure_payload(&invocation, None, "broken".to_string()),
        payload(
            None,
            HookEvent::PostToolUseFailure {
                tool_name: "dummy".to_string(),
                tool_input: Json::Text("go".to_string()),
                tool_use_id: "call-1".to_string(),
                error: "broken".to_string(),
                is_interrupt: None,
            }
        )
    );
}

#[test]
fn the_response_is_written_out() {
    let response = tool_response(true, false, 12, true, "ok");
    assert_eq!(
        response.render().expect("JSON text"),
        "{\"duration_ms\":12,\"executed\":true,\"mutating\":true,\"output_preview\":\"ok\",\"success\":false}"
    );
}

#[test]
fn durations_are_cut_off() {
    assert_eq!(saturating_millis(0), 0);
    assert_eq!(saturating_millis(18446744073709551615), 18446744073709551615);
    assert_eq!(saturating_millis(18446744073709551616), 18446744073709551615);
    assert_eq!(saturating_millis(u128::MAX), 18446744073709551615);
}

#[test]
fn approval_policies_have_names() {
    let reject = AskForApproval::Reject(RejectConfig {
        sandbox_approval: true,
        rules: false,
        mcp_elicitations: true,
    });
    assert_eq!(approval_policy_for_hooks(AskForApproval::UnlessTrusted), "untrusted");
    assert_eq!(approval_policy_for_hooks(AskForApproval::OnFailure), "on-failure");
    assert_eq!(approval_policy_for_hooks(AskForApproval::OnRequest), "on-request");
    assert_eq!(approval_policy_for_hooks(reject), "reject");
    assert_eq!(approval_policy_for_hooks(AskForApproval::Never), "never");
}

#[test]
fn sandbox_policies_have_names() {
    let read_only =
        SandboxPolicy::ReadOnly { access: ReadOnlyAccess::FullAccess, network_access: false };
    let workspace_write = SandboxPolicy::WorkspaceWrite {
        writable_roots: vec![],
        read_only_access: ReadOnlyAccess::FullAccess,
        network_access: false,
        exclude_tmpdir_env_var: false,
        exclude_slash_tmp: false,
    };
    assert_eq!(sandbox_policy_tag(&read_only), "read-only");
    assert_eq!(sandbox_policy_tag(&workspace_write), "workspace-write");
    assert_eq!(sandbox_policy_tag(&SandboxPolicy::DangerFullAccess), "danger-full-access");
    let outside = SandboxPolicy::ExternalSandbox { network_access: true };
    assert_eq!(sandbox_policy_tag(&outside), "external-sandbox");
}
