use codex_tools::context::FunctionCallError;
use codex_tools::multi_agents::spawn::answer_output;
use codex_tools::multi_agents::spawn::checked_call;
use codex_tools::multi_agents::spawn::handle;
use codex_tools::multi_agents::spawn::role_name;
use codex_tools::multi_agents::spawn::SpawnAction;
use codex_tools::multi_agents::spawn::SpawnAgent;
use codex_tools::multi_agents::spawn::SpawnChecks;
use codex_tools::multi_agents::spawn::SpawnEnd;
use codex_tools::multi_agents::spawn::SpawnEvent;
use codex_tools::multi_agents::spawn::SpawnFailure;
use codex_tools::multi_agents::spawn::SpawnRequest;
use codex_tools::multi_agents::spawn::ThreadSpec;
use codex_tools::multi_agents::AgentStatus;
use codex_tools::multi_agents::TextOutput;
use codex_tools::text::join;
use codex_tools::text::same_text;
use codex_tools::text::trim;

fn text(value: &str) -> String {
    value.to_string()
}

fn respond(message: &str) -> FunctionCallError {
    FunctionCallError::RespondToModel(text(message))
}

fn request() -> SpawnRequest {
    SpawnRequest {
        call_id: text("call-1"),
        sender_thread_id: text("parent"),
        agent_type: Some(text("  explorer ")),
        fork_context: true,
        worktree: false,
        background: false,
    }
}

fn checks() -> SpawnChecks {
    SpawnChecks {
        team: Ok(None),
        model_provider: Ok(Some(text("provider"))),
        model: Ok(None),
        prompt: Ok(text("look around")),
        child_depth: 1,
        depth_exceeded: false,
    }
}

fn refusal(checks: SpawnChecks) -> FunctionCallError {
    checked_call(request(), checks).expect_err("refused")
}

fn thread(cwd: Option<&str>) -> ThreadSpec {
    ThreadSpec {
        cwd: cwd.map(text),
        parent_thread_id: text("parent"),
        depth: 1,
        role: Some(text("explorer")),
    }
}

fn failed_end() -> SpawnAction {
    SpawnAction::SendEnd(SpawnEnd {
        call_id: text("call-1"),
        sender_thread_id: text("parent"),
        new_thread_id: None,
        new_agent_nickname: None,
        new_agent_role: None,
        prompt: text("look around"),
        status: None,
    })
}

fn running() -> AgentStatus {
    AgentStatus { state: text("\"running\""), is_final: false }
}

fn begin(request: SpawnRequest) -> SpawnAgent {
    let (state, action) = handle(request, checks()).expect("begun");
    assert_eq!(
        action,
        SpawnAction::SendBegin {
            call_id: text("call-1"),
            sender_thread_id: text("parent"),
            prompt: text("look around"),
        }
    );
    state
}

/// Hands events to a call and checks what it asks for.
fn follow(mut state: SpawnAgent, steps: Vec<(SpawnEvent, SpawnAction)>) -> SpawnAgent {
    for (event, expected) in steps {
        assert!(state.awaits(&event), "{state:?} does not await {event:?}");
        let (moved, action) = state.step(event);
        assert_eq!(action, expected);
        state = moved;
    }
    state
}

fn configured(request: SpawnRequest) -> SpawnAgent {
    follow(
        begin(request),
        vec![
            (SpawnEvent::Done, SpawnAction::BuildConfig { depth: 1 }),
            (
                SpawnEvent::Attempted(Ok(())),
                SpawnAction::ApplyRole { role: Some(text("explorer")) },
            ),
            (
                SpawnEvent::RoleApplied(Ok(())),
                SpawnAction::ApplyModelOverrides {
                    model_provider: Some(text("provider")),
                    model: None,
                },
            ),
            (SpawnEvent::Attempted(Ok(())), SpawnAction::ApplyRuntimeOverrides),
            (SpawnEvent::Attempted(Ok(())), SpawnAction::ApplySpawnOverrides { depth: 1 }),
        ],
    )
}

fn spawn_thread(cwd: Option<&str>) -> SpawnAction {
    SpawnAction::SpawnThread {
        thread: thread(cwd),
        fork_parent_spawn_call_id: Some(text("call-1")),
    }
}

fn with_worktree(background: bool) -> SpawnAgent {
    follow(
        configured(SpawnRequest { worktree: true, background, ..request() }),
        vec![
            (SpawnEvent::Done, SpawnAction::CreateWorktree),
            (SpawnEvent::WorktreeCreated(Ok(text("/tree"))), spawn_thread(Some("/tree"))),
        ],
    )
}

fn start_hooks() -> SpawnAction {
    SpawnAction::RunStartHooks { agent_id: text("agent"), agent_type: text("explorer") }
}

fn ended(state: SpawnAgent) -> bool {
    !state.awaits(&SpawnEvent::Done) && !state.awaits(&SpawnEvent::Attempted(Ok(())))
}

#[test]
fn an_agent_is_spawned() {
    let state = follow(
        configured(request()),
        vec![
            (SpawnEvent::Done, spawn_thread(None)),
            (SpawnEvent::ThreadSpawned(Ok(text("agent"))), start_hooks()),
            (
                SpawnEvent::HookContext(vec![]),
                SpawnAction::SendInput { agent_id: text("agent") },
            ),
            (SpawnEvent::Attempted(Ok(())), SpawnAction::ReadNames { agent_id: text("agent") }),
            (SpawnEvent::Names(None), SpawnAction::ReadStatus { agent_id: text("agent") }),
            (
                SpawnEvent::Status(running()),
                SpawnAction::SendEnd(SpawnEnd {
                    call_id: text("call-1"),
                    sender_thread_id: text("parent"),
                    new_thread_id: Some(text("agent")),
                    new_agent_nickname: None,
                    new_agent_role: None,
                    prompt: text("look around"),
                    status: Some(running()),
                }),
            ),
            (
                SpawnEvent::Done,
                SpawnAction::Finish(Ok(TextOutput {
                    text: text("{\"agent_id\":\"agent\"}"),
                    success: Some(true),
                })),
            ),
        ],
    );
    assert!(ended(state));
}

#[test]
fn a_background_agent_gets_its_worktree_and_its_context() {
    follow(
        with_worktree(true),
        vec![
            (SpawnEvent::ThreadSpawned(Ok(text("agent"))), start_hooks()),
            (
                SpawnEvent::HookContext(vec![text("one"), text("two")]),
                SpawnAction::InjectMessage { agent_id: text("agent"), message: text("one\n\ntwo") },
            ),
            (SpawnEvent::Done, SpawnAction::SendInput { agent_id: text("agent") }),
            (
                SpawnEvent::Attempted(Ok(())),
                SpawnAction::RegisterWorktree {
                    agent_id: text("agent"),
                    worktree_path: text("/tree"),
                },
            ),
            (SpawnEvent::Done, SpawnAction::StartBackgroundCleanup { agent_id: text("agent") }),
            (SpawnEvent::Done, SpawnAction::ReadNames { agent_id: text("agent") }),
            (
                SpawnEvent::Names(Some((Some(text("Ada")), Some(text("explorer"))))),
                SpawnAction::ReadStatus { agent_id: text("agent") },
            ),
        ],
    );
}

#[test]
fn an_agent_without_input_is_given_up() {
    let state = follow(
        with_worktree(false),
        vec![
            (SpawnEvent::ThreadSpawned(Ok(text("agent"))), start_hooks()),
            (
                SpawnEvent::HookContext(vec![]),
                SpawnAction::SendInput { agent_id: text("agent") },
            ),
            (
                SpawnEvent::Attempted(Err(respond("gone"))),
                SpawnAction::RemoveWorktree { worktree_path: text("/tree") },
            ),
            (SpawnEvent::Done, SpawnAction::ShutdownAgent { agent_id: text("agent") }),
            (SpawnEvent::Done, failed_end()),
            (SpawnEvent::Done, SpawnAction::Finish(Err(respond("gone")))),
        ],
    );
    assert!(ended(state));
}

#[test]
fn a_second_try_follows_where_agents_were_reaped() {
    let limit = || {
        SpawnEvent::ThreadSpawned(Err(SpawnFailure {
            limit_reached: true,
            error: respond("too many"),
        }))
    };
    follow(
        with_worktree(false),
        vec![
            (limit(), SpawnAction::ReapFinishedAgents { slots: 1 }),
            (SpawnEvent::Reaped(1), SpawnAction::RespawnThread { thread: thread(Some("/tree")) }),
            (limit(), SpawnAction::RemoveWorktree { worktree_path: text("/tree") }),
            (SpawnEvent::Done, failed_end()),
            (SpawnEvent::Done, SpawnAction::Finish(Err(respond("too many")))),
        ],
    );
    follow(
        configured(request()),
        vec![
            (SpawnEvent::Done, spawn_thread(None)),
            (limit(), SpawnAction::ReapFinishedAgents { slots: 1 }),
            (SpawnEvent::Reaped(0), failed_end()),
            (SpawnEvent::Done, SpawnAction::Finish(Err(respond("too many")))),
        ],
    );
    follow(
        configured(request()),
        vec![
            (SpawnEvent::Done, spawn_thread(None)),
            (limit(), SpawnAction::ReapFinishedAgents { slots: 1 }),
            (SpawnEvent::Reaped(2), SpawnAction::RespawnThread { thread: thread(None) }),
            (SpawnEvent::ThreadSpawned(Ok(text("agent"))), start_hooks()),
        ],
    );
}

#[test]
fn other_failures_are_not_tried_again() {
    follow(
        configured(request()),
        vec![
            (SpawnEvent::Done, spawn_thread(None)),
            (
                SpawnEvent::ThreadSpawned(Err(SpawnFailure {
                    limit_reached: false,
                    error: respond("broken"),
                })),
                failed_end(),
            ),
            (SpawnEvent::Done, SpawnAction::Finish(Err(respond("broken")))),
        ],
    );
}

#[test]
fn a_worktree_that_cannot_be_made_fails_the_call() {
    follow(
        configured(SpawnRequest { worktree: true, ..request() }),
        vec![
            (SpawnEvent::Done, SpawnAction::CreateWorktree),
            (SpawnEvent::WorktreeCreated(Err(respond("no room"))), failed_end()),
            (SpawnEvent::Done, SpawnAction::Finish(Err(respond("no room")))),
        ],
    );
}

#[test]
fn a_configuration_that_fails_ends_the_call() {
    let state = follow(
        begin(request()),
        vec![
            (SpawnEvent::Done, SpawnAction::BuildConfig { depth: 1 }),
            (
                SpawnEvent::Attempted(Ok(())),
                SpawnAction::ApplyRole { role: Some(text("explorer")) },
            ),
            (
                SpawnEvent::RoleApplied(Err(text("unknown role"))),
                SpawnAction::Finish(Err(respond("unknown role"))),
            ),
        ],
    );
    assert!(ended(state));
    follow(
        begin(request()),
        vec![
            (SpawnEvent::Done, SpawnAction::BuildConfig { depth: 1 }),
            (
                SpawnEvent::Attempted(Err(respond("bad config"))),
                SpawnAction::Finish(Err(respond("bad config"))),
            ),
        ],
    );
}

#[test]
fn calls_are_refused_in_order() {
    let both = SpawnChecks {
        team: Ok(Some(text("blue"))),
        depth_exceeded: true,
        ..checks()
    };
    assert_eq!(
        refusal(both),
        respond(
            "spawn_agent is disabled for agent team teammates (team `blue`). Ask the team lead to spawn agents."
        )
    );
    assert_eq!(
        refusal(SpawnChecks { team: Err(respond("no teams")), ..checks() }),
        respond("no teams")
    );
    assert_eq!(
        refusal(SpawnChecks {
            model_provider: Err(respond("empty provider")),
            model: Err(respond("empty model")),
            ..checks()
        }),
        respond("empty provider")
    );
    assert_eq!(
        refusal(SpawnChecks {
            model: Err(respond("empty model")),
            prompt: Err(respond("empty input")),
            ..checks()
        }),
        respond("empty model")
    );
    assert_eq!(
        refusal(SpawnChecks {
            prompt: Err(respond("empty input")),
            depth_exceeded: true,
            ..checks()
        }),
        respond("empty input")
    );
    assert_eq!(
        handle(request(), SpawnChecks { depth_exceeded: true, ..checks() }).expect_err("refused"),
        respond("Agent depth limit reached. Solve the task yourself.")
    );
}

#[test]
fn an_agent_without_a_role_is_shown_as_default() {
    let (state, _) = handle(
        SpawnRequest { agent_type: Some(text(" \t")), fork_context: false, ..request() },
        checks(),
    )
    .expect("begun");
    let mut state = state;
    for event in [
        SpawnEvent::Done,
        SpawnEvent::Attempted(Ok(())),
        SpawnEvent::RoleApplied(Ok(())),
        SpawnEvent::Attempted(Ok(())),
        SpawnEvent::Attempted(Ok(())),
    ] {
        state = state.step(event).0;
    }
    let (state, action) = state.step(SpawnEvent::Done);
    assert_eq!(
        action,
        SpawnAction::SpawnThread {
            thread: ThreadSpec { role: None, ..thread(None) },
            fork_parent_spawn_call_id: None,
        }
    );
    let (_, action) = state.step(SpawnEvent::ThreadSpawned(Ok(text("agent"))));
    assert_eq!(
        action,
        SpawnAction::RunStartHooks { agent_id: text("agent"), agent_type: text("default") }
    );
}

#[test]
fn an_answer_that_cannot_be_written_is_fatal() {
    assert_eq!(
        answer_output(Err(text("oops"))),
        Err(FunctionCallError::Fatal(text("failed to serialize spawn_agent result: oops")))
    );
}

#[test]
fn roles_are_trimmed() {
    assert_eq!(role_name(&None), None);
    assert_eq!(role_name(&Some(text(""))), None);
    assert_eq!(role_name(&Some(text("\u{3000}"))), None);
    assert_eq!(role_name(&Some(text("\u{a0}a b\n"))), Some(text("a b")));
}

#[test]
fn white_space_is_that_of_unicode() {
    for code in 0..0x3100u32 {
        let Some(c) = char::from_u32(code) else {
            continue;
        };
        let padded = format!("{c}x{c}");
        assert_eq!(trim(&padded), padded.trim());
    }
    assert_eq!(trim(""), "");
}

#[test]
fn texts_are_joined_and_told_apart() {
    assert_eq!(join(&vec![], ", "), "");
    assert_eq!(join(&vec![text("a")], ", "), "a");
    assert_eq!(join(&vec![text("a"), text(""), text("b")], ", "), "a, , b");
    assert!(same_text("\u{e4}b", "\u{e4}b"));
    assert!(!same_text("ab", "ac"));
    assert!(!same_text("ab", "abc"));
    assert!(same_text("", ""));
}
