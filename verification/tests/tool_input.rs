use codex_tools::context::ShellToolCallParams;
use codex_tools::context::ToolPayload;
use codex_tools::json::Json;
use codex_tools::tool_input::apply_text_input;
use codex_tools::tool_input::apply_updated_tool_input;
use codex_tools::tool_input::hook_tool_input;
use codex_tools::tool_input::mcp_input_json;
use codex_tools::tool_input::parsed_or_text;
use codex_tools::tool_input::store_input_text;
use codex_tools::tool_input::store_shell_params;

fn json(text: &str) -> Json {
    Json::parse(text).expect("JSON")
}

fn render(json: Json) -> String {
    json.render().expect("JSON text")
}

fn shell(command: &[&str], timeout_ms: Option<u64>) -> ShellToolCallParams {
    ShellToolCallParams {
        command: command.iter().map(|word| word.to_string()).collect(),
        workdir: None,
        timeout_ms,
        sandbox_permissions: None,
        prefix_rule: None,
        additional_permissions: None,
        justification: None,
    }
}

/// Reads the fields that the tests use, with `timeout` as another name of `timeout_ms`.
fn decode(updated: Json) -> Result<ShellToolCallParams, String> {
    let value = updated.into_value();
    let Some(fields) = value.as_object() else {
        return Err(format!("invalid type: {value}, expected struct ShellToolCallParams"));
    };
    let Some(command) = fields.get("command").and_then(|command| command.as_array()) else {
        return Err("missing field `command`".to_string());
    };
    let words: Vec<&str> = command.iter().filter_map(|word| word.as_str()).collect();
    let timeout = fields.get("timeout").or(fields.get("timeout_ms"));
    Ok(shell(&words, timeout.and_then(|timeout| timeout.as_u64())))
}

#[test]
fn apply_updated_tool_input_updates_function_arguments() {
    let mut payload = ToolPayload::Function { arguments: "{\"a\":1}".to_string() };
    apply_updated_tool_input(&mut payload, json("{\"b\": 2}"), decode).expect("updatedInput");
    let ToolPayload::Function { arguments } = payload else {
        panic!("expected function payload");
    };
    assert_eq!(arguments, "{\"b\":2}".to_string());
}

#[test]
fn apply_updated_tool_input_updates_shell_params() {
    let mut payload = ToolPayload::LocalShell { params: shell(&["echo", "hi"], None) };
    apply_updated_tool_input(
        &mut payload,
        json("{\"command\": [\"ls\", \"-la\"], \"timeout\": 5}"),
        decode,
    )
    .expect("updatedInput");
    let ToolPayload::LocalShell { params } = payload else {
        panic!("expected local shell payload");
    };
    assert_eq!(params, shell(&["ls", "-la"], Some(5)));
}

#[test]
fn apply_updated_tool_input_rejects_invalid_shell_params() {
    let mut payload = ToolPayload::LocalShell { params: shell(&["echo", "hi"], None) };
    let err = apply_updated_tool_input(&mut payload, json("\"nope\""), decode)
        .expect_err("invalid");
    assert!(err.contains("invalid updatedInput for shell params"));
    assert_eq!(payload, ToolPayload::LocalShell { params: shell(&["echo", "hi"], None) });
}

#[test]
fn a_text_is_stored_as_it_stands() {
    let mut payload = ToolPayload::Custom { input: "old".to_string() };
    apply_text_input(&mut payload, Json::Text("new \"text\"".to_string())).expect("updatedInput");
    assert_eq!(payload, ToolPayload::Custom { input: "new \"text\"".to_string() });
    apply_text_input(&mut payload, json("[1, null, true]")).expect("updatedInput");
    assert_eq!(payload, ToolPayload::Custom { input: "[1,null,true]".to_string() });
}

#[test]
fn a_rewrite_keeps_the_server_and_the_tool() {
    let mut payload = ToolPayload::Mcp {
        server: "files".to_string(),
        tool: "read".to_string(),
        raw_arguments: "{}".to_string(),
    };
    apply_updated_tool_input(&mut payload, json("{\"path\":\"/x\"}"), decode)
        .expect("updatedInput");
    assert_eq!(
        payload,
        ToolPayload::Mcp {
            server: "files".to_string(),
            tool: "read".to_string(),
            raw_arguments: "{\"path\":\"/x\"}".to_string(),
        }
    );
}

#[test]
fn a_rewrite_that_fails_changes_nothing() {
    let mut payload = ToolPayload::Function { arguments: "{}".to_string() };
    let err = store_input_text(&mut payload, Err("too deep".to_string())).expect_err("no text");
    assert_eq!(err, "failed to serialize updatedInput: too deep");
    assert_eq!(payload, ToolPayload::Function { arguments: "{}".to_string() });

    let mut payload = ToolPayload::LocalShell { params: shell(&["ls"], None) };
    let err = store_shell_params(&mut payload, Err("no command".to_string())).expect_err("no params");
    assert_eq!(err, "invalid updatedInput for shell params: no command");
    assert_eq!(payload, ToolPayload::LocalShell { params: shell(&["ls"], None) });
}

#[test]
fn the_last_rewrite_counts() {
    let mut payload = ToolPayload::Function { arguments: "{}".to_string() };
    apply_text_input(&mut payload, json("{\"first\":1}")).expect("updatedInput");
    apply_text_input(&mut payload, json("{\"second\":2}")).expect("updatedInput");
    assert_eq!(payload, ToolPayload::Function { arguments: "{\"second\":2}".to_string() });
}

#[test]
fn hooks_see_the_rewritten_input() {
    let mut payload = ToolPayload::Function { arguments: "{}".to_string() };
    apply_text_input(&mut payload, json("{\"b\":2}")).expect("updatedInput");
    assert_eq!(hook_tool_input(&payload), json("{\"b\":2}"));
}

#[test]
fn hooks_see_the_value_that_was_stored() {
    let value = "{\"list\":[1,-2,null],\"text\":\"a \\\"b\\\"\"}";
    let mut function = ToolPayload::Function { arguments: "{}".to_string() };
    apply_text_input(&mut function, json(value)).expect("updatedInput");
    assert_eq!(hook_tool_input(&function), json(value));

    let mut mcp = ToolPayload::Mcp {
        server: "s".to_string(),
        tool: "t".to_string(),
        raw_arguments: "{}".to_string(),
    };
    apply_text_input(&mut mcp, json(value)).expect("updatedInput");
    assert_eq!(hook_tool_input(&mcp), mcp_input_json("s", "t", json(value)));

    let mut custom = ToolPayload::Custom { input: String::new() };
    apply_text_input(&mut custom, json(value)).expect("updatedInput");
    assert_eq!(hook_tool_input(&custom), Json::Text(value.to_string()));
}

#[test]
fn arguments_that_do_not_parse_are_shown_as_text() {
    let payload = ToolPayload::Function { arguments: "{not json".to_string() };
    assert_eq!(hook_tool_input(&payload), Json::Text("{not json".to_string()));
    assert_eq!(parsed_or_text(None, "raw"), Json::Text("raw".to_string()));
    assert_eq!(parsed_or_text(Some(Json::Null), "null"), Json::Null);
}

#[test]
fn custom_input_is_shown_as_text() {
    let payload = ToolPayload::Custom { input: "{\"a\":1}".to_string() };
    assert_eq!(hook_tool_input(&payload), Json::Text("{\"a\":1}".to_string()));
}

#[test]
fn mcp_input_names_the_server_and_the_tool() {
    let payload = ToolPayload::Mcp {
        server: "files".to_string(),
        tool: "read".to_string(),
        raw_arguments: "{\"path\":\"/x\"}".to_string(),
    };
    assert_eq!(
        render(hook_tool_input(&payload)),
        "{\"arguments\":{\"path\":\"/x\"},\"server\":\"files\",\"tool\":\"read\"}"
    );
    assert_eq!(
        render(mcp_input_json("s", "t", Json::Null)),
        "{\"arguments\":null,\"server\":\"s\",\"tool\":\"t\"}"
    );
}

#[test]
fn shell_input_shows_every_field_but_the_additional_permissions() {
    let mut params = shell(&["ls", "-la"], Some(1000));
    params.workdir = Some("/tmp".to_string());
    params.prefix_rule = Some(vec!["ls".to_string()]);
    params.additional_permissions = Some(Default::default());
    let shown = render(hook_tool_input(&ToolPayload::LocalShell { params }));
    assert_eq!(
        shown,
        concat_lines(&[
            "{\"command\":[\"ls\",\"-la\"],",
            "\"justification\":null,",
            "\"prefix_rule\":[\"ls\"],",
            "\"sandbox_permissions\":null,",
            "\"timeout_ms\":1000,",
            "\"workdir\":\"/tmp\"}",
        ])
    );
}

fn concat_lines(lines: &[&str]) -> String {
    lines.concat()
}

#[test]
fn json_is_read_and_written() {
    for text in [
        "null",
        "true",
        "0",
        "18446744073709551615",
        "-3",
        "1.5",
        "\"text\\n\"",
        "[]",
        "[1,[2],{\"a\":null}]",
        "{\"a\":1,\"b\":{\"c\":[]}}",
    ] {
        assert_eq!(render(json(text)), text);
    }
    assert_eq!(Json::parse("{"), None);
    assert_eq!(Json::parse(""), None);
    assert_eq!(json("7"), Json::Unsigned(7));
    assert_eq!(json("-7"), Json::Signed(-7));
    assert_eq!(json("-9223372036854775808"), Json::Signed(i64::MIN));
    assert_eq!(render(Json::Signed(-7)), "-7");
    assert_eq!(render(Json::Signed(7)), "7");
    let below = "-9223372036854775809";
    assert!(matches!(json(below), Json::Number(_)));
}

#[test]
fn the_last_of_two_fields_with_one_name_counts() {
    assert_eq!(render(json("{\"a\":1,\"a\":2}")), "{\"a\":2}");
    let object = Json::Object(vec![
        ("a".to_string(), Json::Unsigned(1)),
        ("a".to_string(), Json::Bool(true)),
    ]);
    assert_eq!(render(object), "{\"a\":true}");
    let object = Json::Object(vec![
        ("b".to_string(), Json::Unsigned(1)),
        ("a".to_string(), Json::Unsigned(2)),
        ("b".to_string(), Json::Unsigned(3)),
        ("c".to_string(), Json::Null),
        ("b".to_string(), Json::Unsigned(4)),
    ]);
    assert_eq!(render(object), "{\"a\":2,\"b\":4,\"c\":null}");
}

fn nested(depth: usize) -> Json {
    (0..depth).fold(Json::Signed(-1), |inner, _| Json::Array(vec![inner]))
}

#[test]
fn values_without_floats_read_back_unless_they_are_too_deep() {
    for depth in [0, 1, 100, 127] {
        assert_eq!(Json::parse(&render(nested(depth))), Some(nested(depth)));
    }
    assert_eq!(Json::parse(&render(nested(128))), None);
    let text = "\"\\\u{0}\u{1f}\u{7f}/\u{2028}\u{10ffff}\n\t";
    let value = || Json::Object(vec![(text.to_string(), Json::Text(text.to_string()))]);
    assert_eq!(Json::parse(&render(value())), Some(value()));
    let bounds = || Json::Array(vec![Json::Unsigned(u64::MAX), Json::Signed(i64::MIN), Json::Unsigned(0)]);
    assert_eq!(Json::parse(&render(bounds())), Some(bounds()));
}

#[test]
fn json_values_convert_both_ways() {
    let value = json("{\"a\":[1,2]}").into_value();
    assert_eq!(value["a"][1].as_u64(), Some(2));
    assert_eq!(Json::from_value(value), json("{\"a\":[1,2]}"));
}
