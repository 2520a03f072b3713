use codex_tools::context::FunctionCallError;
use codex_tools::multi_agents::wait_team::answer_json;
use codex_tools::multi_agents::wait_team::answer_output;
use codex_tools::multi_agents::wait_team::handle;
use codex_tools::multi_agents::wait_team::mode_name;
use codex_tools::multi_agents::wait_team::status_json;
use codex_tools::multi_agents::wait_team::Team;
use codex_tools::multi_agents::wait_team::TeamMember;
use codex_tools::multi_agents::wait_team::WaitAction;
use codex_tools::multi_agents::wait_team::WaitEnd;
use codex_tools::multi_agents::wait_team::WaitEvent;
use codex_tools::multi_agents::wait_team::WaitFailure;
use codex_tools::multi_agents::wait_team::WaitOutcome;
use codex_tools::multi_agents::wait_team::WaitRequest;
use codex_tools::multi_agents::wait_team::WaitTeam;
use codex_tools::multi_agents::wait_team::WaitTeamMemberStatus;
use codex_tools::multi_agents::wait_team::WaitTeamMode;
use codex_tools::multi_agents::wait_team::WaitTeamResult;
use codex_tools::multi_agents::wait_team::WaitTeamTriggeredMember;
use codex_tools::multi_agents::AgentStatus;
use codex_tools::multi_agents::TextOutput;

fn text(value: &str) -> String {
    value.to_string()
}

fn member(name: &str, agent_id: &str) -> TeamMember {
    TeamMember { name: text(name), agent_id: text(agent_id) }
}

fn members() -> Vec<TeamMember> {
    vec![member("Ada", "a"), member("Bob", "b")]
}

fn request(mode: Option<WaitTeamMode>) -> WaitRequest {
    WaitRequest {
        sender_thread_id: text("lead"),
        call_id: text("wait-call-1"),
        team: Ok(Team { team_id: text("blue"), members: members() }),
        mode,
        timeout_ms: Ok(30000),
    }
}

fn done() -> AgentStatus {
    AgentStatus { state: text("{\"completed\":null}"), is_final: true }
}

fn running() -> AgentStatus {
    AgentStatus { state: text("\"running\""), is_final: false }
}

fn outcome(
    statuses: Vec<(&str, AgentStatus)>,
    triggered_id: Option<&str>,
    timed_out: bool,
) -> WaitEvent {
    WaitEvent::Waited(Ok(WaitOutcome {
        statuses: statuses.into_iter().map(|(id, status)| (text(id), status)).collect(),
        triggered_id: triggered_id.map(text),
        timed_out,
    }))
}

fn end(statuses: Vec<(&str, AgentStatus)>) -> WaitAction {
    WaitAction::SendEnd(WaitEnd {
        sender_thread_id: text("lead"),
        call_id: text("wait-call-1"),
        members: members(),
        statuses: statuses.into_iter().map(|(id, status)| (text(id), status)).collect(),
    })
}

fn idle(name: &str) -> WaitAction {
    WaitAction::RunIdleHooks { team_id: text("blue"), member_name: text(name) }
}

fn listed(a: AgentStatus, b: AgentStatus) -> Vec<WaitTeamMemberStatus> {
    vec![
        WaitTeamMemberStatus { name: text("Ada"), agent_id: text("a"), state: a },
        WaitTeamMemberStatus { name: text("Bob"), agent_id: text("b"), state: b },
    ]
}

fn follow(mut state: WaitTeam, steps: Vec<(WaitEvent, WaitAction)>) -> WaitTeam {
    for (event, expected) in steps {
        assert!(state.awaits(&event), "{state:?} does not await {event:?}");
        let (moved, action) = state.step(event);
        assert_eq!(action, expected);
        state = moved;
    }
    state
}

fn waiting(mode: Option<WaitTeamMode>) -> WaitTeam {
    let (state, action) = handle(request(mode)).expect("begun");
    assert_eq!(
        action,
        WaitAction::SendBegin {
            sender_thread_id: text("lead"),
            call_id: text("wait-call-1"),
            receiver_thread_ids: vec![text("a"), text("b")],
            members: members(),
        }
    );
    follow(
        state,
        vec![(
            WaitEvent::Done,
            WaitAction::WaitForAgents {
                agent_ids: vec![text("a"), text("b")],
                timeout_ms: 30000,
                mode: mode.unwrap_or(WaitTeamMode::All),
            },
        )],
    )
}

#[test]
fn a_team_is_waited_for() {
    let state = follow(
        waiting(None),
        vec![
            (
                outcome(vec![("b", done()), ("a", done())], Some("b"), false),
                end(vec![("b", done()), ("a", done())]),
            ),
            (WaitEvent::Done, idle("Bob")),
            (WaitEvent::IdleHooksRan(None), idle("Ada")),
            (
                WaitEvent::IdleHooksRan(None),
                WaitAction::WriteAnswer(WaitTeamResult {
                    completed: true,
                    mode: WaitTeamMode::All,
                    triggered_member: None,
                    member_statuses: listed(done(), done()),
                }),
            ),
            (
                WaitEvent::AnswerWritten(Ok(text("{}"))),
                WaitAction::Finish(Ok(TextOutput { text: text("{}"), success: Some(true) })),
            ),
        ],
    );
    assert!(!state.awaits(&WaitEvent::Done));
}

#[test]
fn members_that_were_not_seen_are_asked() {
    follow(
        waiting(Some(WaitTeamMode::Any)),
        vec![
            (
                outcome(vec![("b", done())], Some("b"), false),
                WaitAction::ReadStatus { agent_id: text("a") },
            ),
            (WaitEvent::Status(running()), end(vec![("b", done()), ("a", running())])),
            (WaitEvent::Done, idle("Bob")),
            (
                WaitEvent::IdleHooksRan(None),
                WaitAction::WriteAnswer(WaitTeamResult {
                    completed: true,
                    mode: WaitTeamMode::Any,
                    triggered_member: Some(WaitTeamTriggeredMember {
                        name: text("Bob"),
                        agent_id: text("b"),
                    }),
                    member_statuses: listed(running(), done()),
                }),
            ),
        ],
    );
}

#[test]
fn nothing_is_complete_when_time_runs_out() {
    for mode in [WaitTeamMode::Any, WaitTeamMode::All] {
        follow(
            waiting(Some(mode)),
            vec![
                (
                    outcome(vec![], None, true),
                    WaitAction::ReadStatus { agent_id: text("a") },
                ),
                (WaitEvent::Status(done()), WaitAction::ReadStatus { agent_id: text("b") }),
                (WaitEvent::Status(done()), end(vec![("a", done()), ("b", done())])),
                (
                    WaitEvent::Done,
                    WaitAction::WriteAnswer(WaitTeamResult {
                        completed: false,
                        mode,
                        triggered_member: None,
                        member_statuses: listed(done(), done()),
                    }),
                ),
            ],
        );
    }
}

#[test]
fn waiting_for_all_needs_every_member() {
    follow(
        waiting(Some(WaitTeamMode::All)),
        vec![
            (
                outcome(vec![("a", done()), ("b", running())], None, false),
                end(vec![("a", done()), ("b", running())]),
            ),
            (WaitEvent::Done, idle("Ada")),
            (
                WaitEvent::IdleHooksRan(None),
                WaitAction::WriteAnswer(WaitTeamResult {
                    completed: false,
                    mode: WaitTeamMode::All,
                    triggered_member: None,
                    member_statuses: listed(done(), running()),
                }),
            ),
        ],
    );
}

#[test]
fn hooks_run_for_members_only() {
    follow(
        waiting(Some(WaitTeamMode::Any)),
        vec![
            (
                outcome(
                    vec![("stranger", done()), ("a", running()), ("b", running()), ("a", done())],
                    Some("stranger"),
                    false,
                ),
                end(vec![
                    ("stranger", done()),
                    ("a", running()),
                    ("b", running()),
                    ("a", done()),
                ]),
            ),
            (WaitEvent::Done, idle("Ada")),
            (
                WaitEvent::IdleHooksRan(None),
                WaitAction::WriteAnswer(WaitTeamResult {
                    completed: true,
                    mode: WaitTeamMode::Any,
                    triggered_member: None,
                    member_statuses: listed(done(), running()),
                }),
            ),
        ],
    );
}

#[test]
fn an_objection_fails_the_call() {
    follow(
        waiting(None),
        vec![
            (
                outcome(vec![("a", done()), ("b", done())], None, false),
                end(vec![("a", done()), ("b", done())]),
            ),
            (WaitEvent::Done, idle("Ada")),
            (
                WaitEvent::IdleHooksRan(Some(text("not yet"))),
                WaitAction::Finish(Err(FunctionCallError::RespondToModel(text("not yet")))),
            ),
        ],
    );
}

#[test]
fn waiting_that_fails_reports_the_agent() {
    let error = || FunctionCallError::RespondToModel(text("agent b is gone"));
    follow(
        waiting(None),
        vec![
            (
                WaitEvent::Waited(Err(WaitFailure { agent_id: text("b"), error: error() })),
                WaitAction::ReadStatus { agent_id: text("b") },
            ),
            (
                WaitEvent::Status(running()),
                WaitAction::SendEnd(WaitEnd {
                    sender_thread_id: text("lead"),
                    call_id: text("wait-call-1"),
                    members: vec![],
                    statuses: vec![(text("b"), running())],
                }),
            ),
            (WaitEvent::Done, WaitAction::Finish(Err(error()))),
        ],
    );
}

#[test]
fn calls_to_wait_are_refused_in_order() {
    let respond = |message: &str| FunctionCallError::RespondToModel(text(message));
    let unknown = WaitRequest { team: Err(respond("no such team")), ..request(None) };
    assert_eq!(handle(unknown).expect_err("refused"), respond("no such team"));
    let empty = WaitRequest {
        team: Ok(Team { team_id: text("blue"), members: vec![] }),
        timeout_ms: Err(respond("bad timeout")),
        ..request(None)
    };
    assert_eq!(handle(empty).expect_err("refused"), respond("team `blue` has no members"));
    let hasty = WaitRequest { timeout_ms: Err(respond("bad timeout")), ..request(None) };
    assert_eq!(handle(hasty).expect_err("refused"), respond("bad timeout"));
}

#[test]
fn an_answer_about_a_team_that_cannot_be_written_is_fatal() {
    assert_eq!(
        answer_output(Err(text("oops"))),
        Err(FunctionCallError::Fatal(text("failed to serialize wait_team result: oops")))
    );
}

#[test]
fn an_answer_has_a_json_form() {
    let answer = WaitTeamResult {
        completed: true,
        mode: WaitTeamMode::Any,
        triggered_member: Some(WaitTeamTriggeredMember { name: text("Bob"), agent_id: text("b") }),
        member_statuses: listed(running(), done()),
    };
    let expected = [
        "{\"completed\":true,\"member_statuses\":[",
        "{\"agent_id\":\"a\",\"name\":\"Ada\",\"state\":\"running\"},",
        "{\"agent_id\":\"b\",\"name\":\"Bob\",\"state\":{\"completed\":null}}],",
        "\"mode\":\"any\",\"triggered_member\":{\"agent_id\":\"b\",\"name\":\"Bob\"}}",
    ];
    assert_eq!(answer_json(&answer).render().expect("JSON text"), expected.concat());

    let nobody = WaitTeamResult {
        completed: false,
        mode: WaitTeamMode::All,
        triggered_member: None,
        member_statuses: vec![],
    };
    assert_eq!(
        answer_json(&nobody).render().expect("JSON text"),
        "{\"completed\":false,\"member_statuses\":[],\"mode\":\"all\",\"triggered_member\":null}"
    );
    assert_eq!((mode_name(WaitTeamMode::Any), mode_name(WaitTeamMode::All)), ("any", "all"));
    let odd = AgentStatus { state: text("not json"), is_final: false };
    assert_eq!(status_json(&odd).render().expect("JSON text"), "\"not json\"");
}
