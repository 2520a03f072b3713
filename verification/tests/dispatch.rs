use std::sync::Arc;

use codex_tools::context::FunctionCallError;
use codex_tools::context::ShellToolCallParams;
use codex_tools::context::ToolInvocation;
use codex_tools::context::ToolPayload;
use codex_tools::context::TurnContext;
use codex_tools::dispatch::call_tags;
use codex_tools::dispatch::CallTags;
use codex_tools::dispatch::DispatchAction;
use codex_tools::dispatch::DispatchEvent;
use codex_tools::dispatch::ToolDispatch;
use codex_tools::dispatch::ToolRun;
use codex_tools::hooks::HookEvent;
use codex_tools::hooks::HookOutcome;
use codex_tools::hooks::HookPayload;
use codex_tools::hooks::HookResult;
use codex_tools::hooks::HookResultControl;
use codex_tools::json::Json;
use codex_tools::policy::AskForApproval;
use codex_tools::policy::SandboxPolicy;
use codex_tools::registry::unsupported_tool_call_message;
use codex_tools::registry::ConfiguredToolSpec;
use codex_tools::registry::StringHashMap;
use codex_tools::registry::ToolHandler;
use codex_tools::registry::ToolKind;
use codex_tools::registry::ToolRegistry;
use codex_tools::registry::ToolRegistryBuilder;

#[derive(Clone, Debug, PartialEq)]
struct Output {
    text: String,
    success: Option<bool>,
}

fn output(text: &str, success: bool) -> Output {
    Output { text: text.to_string(), success: Some(success) }
}

#[derive(Debug)]
struct DummyHandler {
    output: Output,
}

impl ToolHandler for DummyHandler {
    fn kind(&self) -> ToolKind {
        ToolKind::Function
    }
}

impl DummyHandler {
    fn handle(&self, _invocation: &ToolInvocation) -> Result<Output, FunctionCallError> {
        Ok(self.output.clone())
    }
}

/// Takes any payload.
#[derive(Debug)]
struct EagerHandler;

impl ToolHandler for EagerHandler {
    fn kind(&self) -> ToolKind {
        ToolKind::Mcp
    }

    fn matches_kind(&self, _payload: &ToolPayload) -> bool {
        true
    }
}

fn turn() -> TurnContext {
    TurnContext {
        session_id: "session".to_string(),
        cwd: "/work".to_string(),
        approval_policy: AskForApproval::Never,
        sandbox_policy: SandboxPolicy::DangerFullAccess,
        sandbox_tag: "none".to_string(),
    }
}

fn call(payload: ToolPayload) -> ToolInvocation {
    ToolInvocation {
        turn: turn(),
        call_id: "call-1".to_string(),
        tool_name: "dummy".to_string(),
        payload,
    }
}

fn function(arguments: &str) -> ToolPayload {
    ToolPayload::Function { arguments: arguments.to_string() }
}

fn invocation() -> ToolInvocation {
    call(function("{\"value\":\"hello\"}"))
}

fn registry_of(output: Output) -> ToolRegistry<DummyHandler> {
    let mut handlers = StringHashMap::new();
    handlers.insert("dummy".to_string(), Arc::new(DummyHandler { output }));
    ToolRegistry::new(handlers)
}

fn answer(name: &str, control: HookResultControl) -> HookOutcome {
    HookOutcome {
        hook_name: name.to_string(),
        result: HookResult {
            error: None,
            additional_context: vec![],
            updated_input: None,
            control,
        },
    }
}

fn blocks(name: &str, reason: &str) -> HookOutcome {
    answer(name, HookResultControl::Block { reason: reason.to_string() })
}

fn rewrites(name: &str, update: Json) -> HookOutcome {
    let mut outcome = answer(name, HookResultControl::Continue);
    outcome.result.updated_input = Some(update);
    outcome.result.additional_context = vec![format!("rewritten by {name}")];
    outcome
}

fn shell(command: &str) -> ShellToolCallParams {
    ShellToolCallParams {
        command: vec![command.to_string()],
        workdir: None,
        timeout_ms: None,
        sandbox_permissions: None,
        prefix_rule: None,
        additional_permissions: None,
        justification: None,
    }
}

/// What surrounds a call: the hooks, by the event that they answer, and how the tool runs.
#[derive(Default)]
struct Host {
    mutating: bool,
    pre_tool_use: Vec<HookOutcome>,
    post_tool_use: Vec<HookOutcome>,
    post_tool_use_failure: Vec<HookOutcome>,
    decoded: Option<Result<ShellToolCallParams, String>>,
    log: Vec<String>,
    shown: Vec<HookPayload>,
    ran_with: Option<String>,
}

impl Host {
    /// Carries a call to its end.
    fn carry(
        &mut self,
        begun: (ToolDispatch<Output>, DispatchAction<Output>),
        mut run: impl FnMut(&ToolInvocation) -> ToolRun<Output>,
    ) -> Result<Output, FunctionCallError> {
        let (mut state, mut action) = begun;
        loop {
            let event = match action {
                DispatchAction::AskMutating => {
                    self.log.push("ask".to_string());
                    DispatchEvent::Mutating(self.mutating)
                }
                DispatchAction::ReadTranscriptPath => DispatchEvent::TranscriptPath(None),
                DispatchAction::DispatchHooks(payload) => {
                    let (name, outcomes) = match &payload.hook_event {
                        HookEvent::PreToolUse { .. } => ("pre", &mut self.pre_tool_use),
                        HookEvent::PostToolUse { .. } => ("post", &mut self.post_tool_use),
                        HookEvent::PostToolUseFailure { .. } => {
                            ("failure", &mut self.post_tool_use_failure)
                        }
                    };
                    let outcomes = std::mem::take(outcomes);
                    self.log.push(name.to_string());
                    self.shown.push(payload);
                    DispatchEvent::HookOutcomes(outcomes)
                }
                DispatchAction::RecordHookContext(context) => {
                    if !context.is_empty() {
                        self.log.push(context.join(","));
                    }
                    DispatchEvent::ContextRecorded
                }
                DispatchAction::DecodeShellParams(_) => {
                    DispatchEvent::ShellParamsDecoded(self.decoded.take().expect("decoded"))
                }
                DispatchAction::WaitForGate => {
                    self.log.push("wait".to_string());
                    DispatchEvent::GateReady
                }
                DispatchAction::RunTool => {
                    self.log.push("run".to_string());
                    self.ran_with = Some(format!("{:?}", state.invocation().payload));
                    DispatchEvent::ToolFinished { run: run(state.invocation()), millis: 7 }
                }
                DispatchAction::EmitReadMetric { success } => {
                    self.log.push(format!("metric {success}"));
                    DispatchEvent::ReadMetricEmitted
                }
                DispatchAction::Finish(result) => {
                    assert!(!state.awaits(&DispatchEvent::ContextRecorded));
                    return result;
                }
            };
            assert!(state.awaits(&event));
            let (moved, next) = state.step(event);
            state = moved;
            action = next;
        }
    }

    fn dispatch(
        &mut self,
        registry: &ToolRegistry<DummyHandler>,
        invocation: ToolInvocation,
    ) -> Result<Output, FunctionCallError> {
        let (handler, begun) = registry.dispatch::<Output>(invocation, None);
        let begun = match begun {
            Ok(begun) => begun,
            Err(rejected) => return Err(rejected.error),
        };
        let handler = handler.expect("handler");
        self.carry(begun, |invocation| match handler.handle(invocation) {
            Ok(output) => ToolRun::Completed {
                preview: output.text.clone(),
                success: output.success.unwrap_or(true),
                output: Some(output),
            },
            Err(error) => ToolRun::Failed { text: format!("{error:?}"), error },
        })
    }
}

#[test]
fn post_tool_use_hook_can_block_tool_output() {
    let registry = registry_of(output("ok", true));
    let mut host = Host { post_tool_use: vec![blocks("python3", "nope")], ..Default::default() };
    let Err(err) = host.dispatch(&registry, invocation()) else {
        panic!("expected tool call to be blocked");
    };
    let FunctionCallError::RespondToModel(message) = err else {
        panic!("expected RespondToModel error");
    };
    assert!(message.contains("post_tool_use hook"));
    assert!(message.contains("blocked"));
    assert!(message.contains("nope"));
}

#[test]
fn post_tool_use_failure_hook_can_block_tool_output() {
    let registry = registry_of(output("failed", false));
    let mut host =
        Host { post_tool_use_failure: vec![blocks("python3", "nope")], ..Default::default() };
    let Err(err) = host.dispatch(&registry, invocation()) else {
        panic!("expected tool call to be blocked");
    };
    let FunctionCallError::RespondToModel(message) = err else {
        panic!("expected RespondToModel error");
    };
    assert!(message.contains("post_tool_use_failure hook"));
    assert!(message.contains("blocked"));
    assert!(message.contains("nope"));
}

#[test]
fn a_call_runs_between_its_hooks() {
    let registry = registry_of(output("ok", true));
    let mut host = Host::default();
    assert_eq!(host.dispatch(&registry, invocation()), Ok(output("ok", true)));
    assert_eq!(host.log, ["ask", "pre", "run", "metric true", "post"]);
    let HookEvent::PostToolUse { tool_response, .. } = &host.shown[1].hook_event else {
        panic!("expected a success");
    };
    let expected = Json::Object(vec![
        ("executed".to_string(), Json::Bool(true)),
        ("success".to_string(), Json::Bool(true)),
        ("duration_ms".to_string(), Json::Unsigned(7)),
        ("mutating".to_string(), Json::Bool(false)),
        ("output_preview".to_string(), Json::Text("ok".to_string())),
    ]);
    assert_eq!(*tool_response, expected);
}

#[test]
fn a_call_that_may_change_something_waits_for_its_turn() {
    let registry = registry_of(output("ok", true));
    let mut host = Host { mutating: true, ..Default::default() };
    assert_eq!(host.dispatch(&registry, invocation()), Ok(output("ok", true)));
    assert_eq!(host.log, ["ask", "pre", "wait", "run", "metric true", "post"]);
}

#[test]
fn a_blocked_call_never_runs() {
    let registry = registry_of(output("ok", true));
    let mut host = Host {
        mutating: true,
        pre_tool_use: vec![rewrites("first", Json::Null), blocks("guard", "risky")],
        ..Default::default()
    };
    assert_eq!(
        host.dispatch(&registry, invocation()),
        Err(FunctionCallError::RespondToModel(
            "pre_tool_use hook 'guard' blocked tool 'dummy': risky".to_string()
        ))
    );
    assert_eq!(host.log, ["ask", "pre", "rewritten by first"]);
}

#[test]
fn a_call_runs_with_the_input_that_hooks_ask_for() {
    let registry = registry_of(output("ok", true));
    let update = Json::parse("{\"value\":\"bye\"}").expect("JSON");
    let mut host = Host { pre_tool_use: vec![rewrites("hook", update)], ..Default::default() };
    assert_eq!(host.dispatch(&registry, invocation()), Ok(output("ok", true)));
    assert_eq!(host.ran_with, Some(format!("{:?}", function("{\"value\":\"bye\"}"))));
    let HookEvent::PostToolUse { tool_input, tool_name, tool_use_id, .. } =
        &host.shown[1].hook_event
    else {
        panic!("expected a success");
    };
    assert_eq!(*tool_input, Json::parse("{\"value\":\"bye\"}").expect("JSON"));
    assert_eq!((tool_name.as_str(), tool_use_id.as_str()), ("dummy", "call-1"));
}

#[test]
fn failing_hooks_stop_no_call() {
    let registry = registry_of(output("ok", true));
    let mut failing = answer("hook", HookResultControl::Continue);
    failing.result.error = Some("timed out".to_string());
    let mut host = Host { pre_tool_use: vec![failing], ..Default::default() };
    assert_eq!(host.dispatch(&registry, invocation()), Ok(output("ok", true)));
}

#[test]
fn a_run_that_fails_is_shown_as_a_failure() {
    let registry = registry_of(output("failed", false));
    let mut host = Host::default();
    assert_eq!(host.dispatch(&registry, invocation()), Ok(output("failed", false)));
    assert_eq!(host.log, ["ask", "pre", "run", "metric false", "failure"]);

    let begun = ToolDispatch::begin(invocation(), None, Some(true)).ok().expect("begun");
    let mut host = Host::default();
    let error = || FunctionCallError::Fatal("broken".to_string());
    let result =
        host.carry(begun, |_| ToolRun::Failed { error: error(), text: "it broke".to_string() });
    assert_eq!(result, Err(error()));
    let HookEvent::PostToolUseFailure { error: shown, is_interrupt, .. } =
        &host.shown[1].hook_event
    else {
        panic!("expected a failure");
    };
    assert_eq!((shown.as_str(), *is_interrupt), ("it broke", None));
}

#[test]
fn a_run_without_output_is_fatal() {
    let begun = ToolDispatch::begin(invocation(), None, Some(true)).ok().expect("begun");
    let result = Host::default().carry(begun, |_| ToolRun::Completed {
        output: None,
        preview: String::new(),
        success: true,
    });
    assert_eq!(result, Err(FunctionCallError::Fatal("tool produced no output".to_string())));
}

#[test]
fn shell_parameters_are_replaced_where_they_decode() {
    for (decoded, expected) in [(Ok(shell("new")), "new"), (Err("no command".to_string()), "old")] {
        let payload = ToolPayload::LocalShell { params: shell("old") };
        let begun = ToolDispatch::begin(call(payload), None, Some(true)).ok().expect("begun");
        let mut host = Host {
            pre_tool_use: vec![rewrites("hook", Json::Null)],
            decoded: Some(decoded),
            ..Default::default()
        };
        let result = host.carry(begun, |_| ToolRun::Completed {
            output: Some(output("ok", true)),
            preview: "ok".to_string(),
            success: true,
        });
        assert_eq!(result, Ok(output("ok", true)));
        let ran_with = ToolPayload::LocalShell { params: shell(expected) };
        assert_eq!(host.ran_with, Some(format!("{ran_with:?}")));
    }
}

#[test]
fn a_tool_without_a_handler_is_refused() {
    let registry = registry_of(output("ok", true));
    let mut unknown = invocation();
    unknown.tool_name = "other".to_string();
    let (handler, begun) = registry.dispatch::<Output>(unknown, None);
    assert!(handler.is_none());
    let Err(rejected) = begun else {
        panic!("expected a refusal");
    };
    assert_eq!(rejected.message, "unsupported call: other");
    assert_eq!(
        rejected.error,
        FunctionCallError::RespondToModel("unsupported call: other".to_string())
    );
    assert_eq!(rejected.invocation.call_id, "call-1");
    assert_eq!(
        unsupported_tool_call_message(&ToolPayload::Custom { input: "x".to_string() }, "other"),
        "unsupported custom tool call: other"
    );
}

#[test]
fn a_payload_that_the_handler_does_not_take_is_fatal() {
    let registry = registry_of(output("ok", true));
    let mut host = Host::default();
    assert_eq!(
        host.dispatch(&registry, call(ToolPayload::Custom { input: "x".to_string() })),
        Err(FunctionCallError::Fatal("tool dummy invoked with incompatible payload".to_string()))
    );
}

#[test]
fn handlers_may_take_any_payload() {
    let mut handlers = StringHashMap::new();
    handlers.insert("dummy".to_string(), Arc::new(EagerHandler));
    let registry = ToolRegistry::new(handlers);
    let (_, begun) =
        registry.dispatch::<Output>(call(ToolPayload::Custom { input: "x".to_string() }), None);
    assert!(begun.is_ok());
}

#[test]
fn kinds_take_their_payloads() {
    let mcp = ToolPayload::Mcp {
        server: "s".to_string(),
        tool: "t".to_string(),
        raw_arguments: "{}".to_string(),
    };
    let custom = ToolPayload::Custom { input: "x".to_string() };
    let local = ToolPayload::LocalShell { params: shell("ls") };
    assert!(ToolKind::Function.takes(&function("{}")));
    assert!(!ToolKind::Function.takes(&mcp));
    assert!(ToolKind::Mcp.takes(&mcp));
    assert!(!ToolKind::Mcp.takes(&function("{}")));
    for kind in [ToolKind::Function, ToolKind::Mcp] {
        assert!(!kind.takes(&custom));
        assert!(!kind.takes(&local));
    }
}

#[test]
fn the_last_registration_counts() {
    let mut builder: ToolRegistryBuilder<&str, DummyHandler> = ToolRegistryBuilder::new();
    builder.push_spec("one");
    builder.push_spec_with_parallel_support("two", true);
    let first = Arc::new(DummyHandler { output: output("first", true) });
    let second = Arc::new(DummyHandler { output: output("second", true) });
    assert!(!builder.register_handler("dummy".to_string(), first));
    assert!(builder.register_handler("dummy".to_string(), second));
    let (specs, registry) = builder.build();
    assert_eq!(
        specs,
        [ConfiguredToolSpec::new("one", false), ConfiguredToolSpec::new("two", true)]
    );
    assert_eq!(registry.handler("dummy").expect("handler").output.text, "second");
    assert!(registry.handler("other").is_none());
}

#[test]
fn tags_name_the_server_of_an_mcp_call() {
    let mcp = ToolPayload::Mcp {
        server: "files".to_string(),
        tool: "read".to_string(),
        raw_arguments: "{}".to_string(),
    };
    let tags = call_tags(&call(mcp), Some("https://files".to_string()));
    assert_eq!(
        tags,
        CallTags {
            sandbox: "none".to_string(),
            sandbox_policy: "danger-full-access",
            mcp_server: Some("files".to_string()),
            mcp_server_origin: Some("https://files".to_string()),
        }
    );
    let begun = ToolDispatch::begin(invocation(), Some("https://files".to_string()), Some(true));
    let Ok((begun, DispatchAction::<Output>::AskMutating)) = begun else {
        panic!("expected the call to begin");
    };
    assert_eq!(begun.tags().mcp_server, None);
    assert_eq!(begun.tags().mcp_server_origin, None);
}

#[test]
fn an_input_that_hooks_ask_for_after_the_call_has_no_effect() {
    let registry = registry_of(output("ok", true));
    let update = Json::parse("{\"value\":\"late\"}").expect("JSON");
    let mut host = Host { post_tool_use: vec![rewrites("late", update)], ..Default::default() };
    assert_eq!(host.dispatch(&registry, invocation()), Ok(output("ok", true)));
    assert_eq!(host.ran_with, Some(format!("{:?}", function("{\"value\":\"hello\"}"))));
    assert_eq!(
        host.log,
        ["ask", "pre", "run", "metric true", "post", "rewritten by late"]
    );
}
