//! The input of a tool call as hooks see it, and as they may rewrite it.

use vstd::prelude::*;
use vstd::string::*;

use crate::context::PayloadModel;
use crate::context::ShellParamsModel;
use crate::context::ShellToolCallParams;
use crate::context::ToolPayload;
use crate::json::fields;
use crate::json::named_trees_of;
use crate::json::parsed_json;
use crate::json::reads_back;
use crate::json::rendered_json;
use crate::json::trees_of;
use crate::json::Json;
use crate::json::JsonTree;
use crate::text::texts;

verus! {

/// A text, or null.
pub open spec fn text_or_null(text: Option<Seq<char>>) -> JsonTree {
    match text {
        Some(t) => JsonTree::Text(t),
        None => JsonTree::Null,
    }
}

/// A list of texts.
pub open spec fn text_array(texts: Seq<Seq<char>>) -> JsonTree {
    JsonTree::Array(Seq::new(texts.len(), |i: int| JsonTree::Text(texts[i])))
}

/// A list of texts, or null.
pub open spec fn text_array_or_null(texts: Option<Seq<Seq<char>>>) -> JsonTree {
    match texts {
        Some(t) => text_array(t),
        None => JsonTree::Null,
    }
}

/// A number, or null.
pub open spec fn unsigned_or_null(number: Option<u64>) -> JsonTree {
    match number {
        Some(n) => JsonTree::Unsigned(n),
        None => JsonTree::Null,
    }
}

/// An object with the given fields.
pub open spec fn object(entries: Seq<(Seq<char>, JsonTree)>) -> JsonTree {
    JsonTree::Object(fields(entries))
}

/// The value that arguments stand for: what they parse as, or else the text itself.
pub open spec fn arguments_value(parsed: Option<JsonTree>, raw: Seq<char>) -> JsonTree {
    match parsed {
        Some(tree) => tree,
        None => JsonTree::Text(raw),
    }
}

/// The input of a shell call as hooks see it.
pub open spec fn shell_input(params: ShellParamsModel) -> JsonTree {
    object(
        seq![
            ("command"@, text_array(params.command)),
            ("workdir"@, text_or_null(params.workdir)),
            ("timeout_ms"@, unsigned_or_null(params.timeout_ms)),
            ("sandbox_permissions"@, text_or_null(params.sandbox_permissions)),
            ("prefix_rule"@, text_array_or_null(params.prefix_rule)),
            ("justification"@, text_or_null(params.justification)),
        ],
    )
}

/// The input of an MCP call as hooks see it.
pub open spec fn mcp_input(server: Seq<char>, tool: Seq<char>, arguments: JsonTree) -> JsonTree {
    object(
        seq![
            ("server"@, JsonTree::Text(server)),
            ("tool"@, JsonTree::Text(tool)),
            ("arguments"@, arguments),
        ],
    )
}

/// The input of a tool call as hooks see it.
pub open spec fn payload_input(payload: PayloadModel) -> JsonTree {
    match payload {
        PayloadModel::Function { arguments } => arguments_value(parsed_json(arguments), arguments),
        PayloadModel::Custom { input } => JsonTree::Text(input),
        PayloadModel::LocalShell { params } => shell_input(params),
        PayloadModel::Mcp { server, tool, raw_arguments } => mcp_input(
            server,
            tool,
            arguments_value(parsed_json(raw_arguments), raw_arguments),
        ),
    }
}

/// The value that arguments stand for, given what they parse as.
pub fn parsed_or_text(parsed: Option<Json>, raw: &str) -> (value: Json)
    ensures
        value.tree() == arguments_value(
            match parsed {
                Some(json) => Some(json.tree()),
                None => None,
            },
            raw@,
        ),
{
    match parsed {
        Some(json) => json,
        None => Json::Text(raw.to_string()),
    }
}

fn text_json(text: &Option<String>) -> (json: Json)
    ensures
        json.tree() == text_or_null(crate::text::opt_text(*text)),
{
    match text {
        Some(t) => Json::Text(t.clone()),
        None => Json::Null,
    }
}

fn text_array_json(list: &Vec<String>) -> (json: Json)
    ensures
        json.tree() == text_array(texts(list@)),
{
    let mut items: Vec<Json> = Vec::new();
    let mut i: usize = 0;
    while i < list.len()
        invariant
            i <= list@.len(),
            items@.len() == i,
            forall|j: int| 0 <= j < i ==> (#[trigger] items@[j]).tree() == JsonTree::Text(list@[j]@),
        decreases list@.len() - i,
    {
        items.push(Json::Text(list[i].clone()));
        i = i + 1;
    }
    assert(trees_of(items@) =~= text_array(texts(list@))->Array_0);
    Json::Array(items)
}

/// The input of a shell call as hooks see it.
fn shell_input_json(params: &ShellToolCallParams) -> (json: Json)
    ensures
        json.tree() == shell_input(params@),
{
    let mut entries: Vec<(String, Json)> = Vec::new();
    entries.push(("command".to_string(), text_array_json(&params.command)));
    entries.push(("workdir".to_string(), text_json(&params.workdir)));
    let timeout = match params.timeout_ms {
        Some(n) => Json::Unsigned(n),
        None => Json::Null,
    };
    entries.push(("timeout_ms".to_string(), timeout));
    entries.push(("sandbox_permissions".to_string(), text_json(&params.sandbox_permissions)));
    let prefix_rule = match &params.prefix_rule {
        Some(rule) => text_array_json(rule),
        None => Json::Null,
    };
    entries.push(("prefix_rule".to_string(), prefix_rule));
    entries.push(("justification".to_string(), text_json(&params.justification)));
    proof {
        let expected = seq![
            ("command"@, text_array(params@.command)),
            ("workdir"@, text_or_null(params@.workdir)),
            ("timeout_ms"@, unsigned_or_null(params@.timeout_ms)),
            ("sandbox_permissions"@, text_or_null(params@.sandbox_permissions)),
            ("prefix_rule"@, text_array_or_null(params@.prefix_rule)),
            ("justification"@, text_or_null(params@.justification)),
        ];
        assert(named_trees_of(entries@) =~= expected);
    }
    Json::Object(entries)
}

/// The input of an MCP call as hooks see it, given the value of its arguments.
pub fn mcp_input_json(server: &str, tool: &str, arguments: Json) -> (json: Json)
    ensures
        json.tree() == mcp_input(server@, tool@, arguments.tree()),
{
    let mut entries: Vec<(String, Json)> = Vec::new();
    entries.push(("server".to_string(), Json::Text(server.to_string())));
    entries.push(("tool".to_string(), Json::Text(tool.to_string())));
    entries.push(("arguments".to_string(), arguments));
    proof {
        let expected = seq![
            ("server"@, JsonTree::Text(server@)),
            ("tool"@, JsonTree::Text(tool@)),
            ("arguments"@, arguments.tree()),
        ];
        assert(named_trees_of(entries@) =~= expected);
    }
    Json::Object(entries)
}

/// The input of a tool call as hooks see it.
pub fn hook_tool_input(payload: &ToolPayload) -> (json: Json)
    ensures
        json.tree() == payload_input(payload@),
{
    match payload {
        ToolPayload::Function { arguments } => parsed_or_text(
            Json::parse(arguments.as_str()),
            arguments.as_str(),
        ),
        ToolPayload::Custom { input } => Json::Text(input.clone()),
        ToolPayload::LocalShell { params } => shell_input_json(params),
        ToolPayload::Mcp { server, tool, raw_arguments } => {
            let arguments = parsed_or_text(
                Json::parse(raw_arguments.as_str()),
                raw_arguments.as_str(),
            );
            mcp_input_json(server.as_str(), tool.as_str(), arguments)
        },
    }
}

/// The text that a rewritten input is stored as: a JSON string as its own text, any other
/// value as its JSON text. An error is the message of the one that stopped the writing.
pub open spec fn input_text(updated: JsonTree) -> Result<Seq<char>, Seq<char>> {
    match updated {
        JsonTree::Text(text) => Ok(text),
        _ => rendered_json(updated),
    }
}

/// A payload that takes text, with its input replaced by the given text.
pub open spec fn with_input_text(payload: PayloadModel, text: Seq<char>) -> PayloadModel {
    match payload {
        PayloadModel::Function { .. } => PayloadModel::Function { arguments: text },
        PayloadModel::Custom { .. } => PayloadModel::Custom { input: text },
        PayloadModel::LocalShell { .. } => payload,
        PayloadModel::Mcp { server, tool, .. } => PayloadModel::Mcp {
            server,
            tool,
            raw_arguments: text,
        },
    }
}

/// A payload and the result of storing a rewritten input in it as text.
pub open spec fn stored_text(
    payload: PayloadModel,
    text: Result<Seq<char>, Seq<char>>,
) -> (PayloadModel, Result<(), Seq<char>>) {
    match text {
        Ok(t) => (with_input_text(payload, t), Ok(())),
        Err(e) => (payload, Err("failed to serialize updatedInput: "@ + e)),
    }
}

/// A payload and the result of storing rewritten shell parameters in it.
pub open spec fn stored_params(
    payload: PayloadModel,
    params: Result<ShellParamsModel, Seq<char>>,
) -> (PayloadModel, Result<(), Seq<char>>) {
    match params {
        Ok(p) => (PayloadModel::LocalShell { params: p }, Ok(())),
        Err(e) => (payload, Err("invalid updatedInput for shell params: "@ + e)),
    }
}

/// What a text result holds.
pub open spec fn text_result(result: Result<String, String>) -> Result<Seq<char>, Seq<char>> {
    match result {
        Ok(t) => Ok(t@),
        Err(e) => Err(e@),
    }
}

/// What the result of decoding shell parameters holds.
pub open spec fn params_result(result: Result<ShellToolCallParams, String>) -> Result<
    ShellParamsModel,
    Seq<char>,
> {
    match result {
        Ok(p) => Ok(p@),
        Err(e) => Err(e@),
    }
}

/// What the result of storing a rewritten input holds.
pub open spec fn stored_result(result: Result<(), String>) -> Result<(), Seq<char>> {
    match result {
        Ok(()) => Ok(()),
        Err(e) => Err(e@),
    }
}

/// Stores a rewritten input in a payload that takes text, given the text that it is to be
/// stored as. Where there is none, the payload stays as it is.
pub fn store_input_text(payload: &mut ToolPayload, text: Result<String, String>) -> (result: Result<
    (),
    String,
>)
    requires
        !(old(payload)@ is LocalShell),
    ensures
        (final(payload)@, stored_result(result)) == stored_text(old(payload)@, text_result(text)),
{
    match text {
        Ok(text) => {
            match payload {
                ToolPayload::Function { arguments } => {
                    *arguments = text;
                },
                ToolPayload::Custom { input } => {
                    *input = text;
                },
                ToolPayload::LocalShell { .. } => {},
                ToolPayload::Mcp { raw_arguments, .. } => {
                    *raw_arguments = text;
                },
            }
            Ok(())
        },
        Err(error) => {
            let mut message = "failed to serialize updatedInput: ".to_string();
            message.append(error.as_str());
            Err(message)
        },
    }
}

/// Stores rewritten shell parameters in the payload of a shell call, given what the rewritten
/// input decodes as. Where it does not decode, the payload stays as it is.
pub fn store_shell_params(
    payload: &mut ToolPayload,
    decoded: Result<ShellToolCallParams, String>,
) -> (result: Result<(), String>)
    requires
        old(payload)@ is LocalShell,
    ensures
        (final(payload)@, stored_result(result)) == stored_params(
            old(payload)@,
            params_result(decoded),
        ),
{
    match decoded {
        Ok(updated) => {
            *payload = ToolPayload::LocalShell { params: updated };
            Ok(())
        },
        Err(error) => {
            let mut message = "invalid updatedInput for shell params: ".to_string();
            message.append(error.as_str());
            Err(message)
        },
    }
}

/// Whether hooks that look at a payload see the given value as its input: as a whole for a
/// function, as the arguments of an MCP call, and as its JSON text for a custom call.
pub open spec fn shows_value(payload: PayloadModel, value: JsonTree) -> bool {
    match payload {
        PayloadModel::Function { .. } => payload_input(payload) == value,
        PayloadModel::Mcp { server, tool, .. } => payload_input(payload) == mcp_input(
            server,
            tool,
            value,
        ),
        PayloadModel::Custom { .. } => rendered_json(value) is Ok && payload_input(payload)
            == JsonTree::Text(rendered_json(value)->Ok_0),
        PayloadModel::LocalShell { .. } => false,
    }
}

/// Stores a rewritten input in a payload that takes text.
pub fn apply_text_input(payload: &mut ToolPayload, updated_input: Json) -> (result: Result<
    (),
    String,
>)
    requires
        !(old(payload)@ is LocalShell),
    ensures
        (final(payload)@, stored_result(result)) == stored_text(
            old(payload)@,
            input_text(updated_input.tree()),
        ),
        result is Ok,
        !(updated_input.tree() is Text) && reads_back(updated_input.tree()) ==> shows_value(
            final(payload)@,
            updated_input.tree(),
        ),
{
    let text = match updated_input {
        Json::Text(text) => Ok(text),
        value => value.render(),
    };
    store_input_text(payload, text)
}

/// Applies the input that a hook asks for. `decode` reads it as shell parameters, for a
/// shell call.
pub fn apply_updated_tool_input<D: FnOnce(Json) -> Result<ShellToolCallParams, String>>(
    payload: &mut ToolPayload,
    updated_input: Json,
    decode: D,
) -> (result: Result<(), String>)
    requires
        old(payload)@ is LocalShell ==> call_requires(decode, (updated_input,)),
    ensures
        !(old(payload)@ is LocalShell) ==> (final(payload)@, stored_result(result)) == stored_text(
            old(payload)@,
            input_text(updated_input.tree()),
        ) && result is Ok,
        !(old(payload)@ is LocalShell) && !(updated_input.tree() is Text) && reads_back(
            updated_input.tree(),
        ) ==> shows_value(final(payload)@, updated_input.tree()),
        old(payload)@ is LocalShell ==> exists|decoded: Result<ShellToolCallParams, String>| #[trigger]
            call_ensures(decode, (updated_input,), decoded) && (
            final(payload)@,
            stored_result(result),
        ) == stored_params(old(payload)@, params_result(decoded)),
{
    let is_shell = match payload {
        ToolPayload::LocalShell { .. } => true,
        _ => false,
    };
    if is_shell {
        let decoded = decode(updated_input);
        store_shell_params(payload, decoded)
    } else {
        apply_text_input(payload, updated_input)
    }
}

/// Two payloads of the same kind, and for MCP calls of the same tool of the same server.
pub open spec fn same_target(a: PayloadModel, b: PayloadModel) -> bool {
    match (a, b) {
        (PayloadModel::Function { .. }, PayloadModel::Function { .. }) => true,
        (PayloadModel::Custom { .. }, PayloadModel::Custom { .. }) => true,
        (PayloadModel::LocalShell { .. }, PayloadModel::LocalShell { .. }) => true,
        (
            PayloadModel::Mcp { server, tool, .. },
            PayloadModel::Mcp { server: other_server, tool: other_tool, .. },
        ) => server == other_server && tool == other_tool,
        _ => false,
    }
}

/// A rewritten input that cannot be stored changes nothing.
pub proof fn law_failed_rewrite_changes_nothing(
    payload: PayloadModel,
    text: Result<Seq<char>, Seq<char>>,
    params: Result<ShellParamsModel, Seq<char>>,
)
    ensures
        stored_text(payload, text).1 is Err <==> text is Err,
        stored_text(payload, text).1 is Err ==> stored_text(payload, text).0 == payload,
        stored_params(payload, params).1 is Err <==> params is Err,
        stored_params(payload, params).1 is Err ==> stored_params(payload, params).0 == payload,
{
}

/// A rewritten input leaves a call a call of the same tool.
pub proof fn law_rewrite_keeps_the_target(
    payload: PayloadModel,
    text: Result<Seq<char>, Seq<char>>,
    params: Result<ShellParamsModel, Seq<char>>,
)
    ensures
        same_target(payload, stored_text(payload, text).0),
        payload is LocalShell ==> same_target(payload, stored_params(payload, params).0),
{
}

/// Of two rewrites that can be stored the second counts, as if the first had never been.
pub proof fn law_last_rewrite_counts(
    payload: PayloadModel,
    first_text: Seq<char>,
    second_text: Seq<char>,
    first_params: ShellParamsModel,
    second_params: ShellParamsModel,
)
    ensures
        stored_text(stored_text(payload, Ok(first_text)).0, Ok(second_text)) == stored_text(
            payload,
            Ok(second_text),
        ),
        stored_params(stored_params(payload, Ok(first_params)).0, Ok(second_params))
            == stored_params(payload, Ok(second_params)),
{
}

/// Hooks see a rewritten input: a text as it stands for a custom call, and as the value that
/// it parses as for a function and for the arguments of an MCP call.
pub proof fn law_hooks_see_the_rewritten_input(payload: PayloadModel, text: Seq<char>)
    ensures
        ({
            let seen = payload_input(stored_text(payload, Ok(text)).0);
            match payload {
                PayloadModel::Function { .. } => seen == arguments_value(parsed_json(text), text),
                PayloadModel::Custom { .. } => seen == JsonTree::Text(text),
                PayloadModel::Mcp { server, tool, .. } => seen == mcp_input(
                    server,
                    tool,
                    arguments_value(parsed_json(text), text),
                ),
                PayloadModel::LocalShell { params } => seen == shell_input(params),
            }
        }),
{
}

/// Hooks see the value that was stored: where the text that a value is written as reads back
/// as that value, a function and the arguments of an MCP call show that value, and a custom
/// call shows the text.
pub proof fn law_hooks_see_the_value_that_was_stored(payload: PayloadModel, value: JsonTree)
    requires
        !(payload is LocalShell),
        !(value is Text),
    ensures
        rendered_json(value) matches Ok(text) ==> (parsed_json(text) == Some(value) ==> shows_value(
            stored_text(payload, input_text(value)).0,
            value,
        )),
{
}

/// Hooks do not see the additional permissions that a shell call asks for.
pub proof fn law_additional_permissions_are_not_shown(a: ShellParamsModel, b: ShellParamsModel)
    requires
        a == (ShellParamsModel { additional_permissions: a.additional_permissions, ..b }),
    ensures
        payload_input(PayloadModel::LocalShell { params: a }) == payload_input(
            PayloadModel::LocalShell { params: b },
        ),
{
}

/// What hooks see of a call: the value that its arguments parse as, or else their text; the
/// text of a custom call; the server, the tool and the arguments of an MCP call; six fields of a
/// shell call, null where one is not given.
pub proof fn law_what_hooks_see_of_a_call(payload: PayloadModel)
    ensures
        payload matches PayloadModel::Function { arguments } ==> payload_input(payload) == (
        match parsed_json(arguments) {
            Some(value) => value,
            None => JsonTree::Text(arguments),
        }),
        payload matches PayloadModel::Custom { input } ==> payload_input(payload)
            == JsonTree::Text(input),
        payload matches PayloadModel::Mcp { server, tool, raw_arguments } ==> payload_input(payload)
            == JsonTree::Object(
            map![
                "server"@ => JsonTree::Text(server),
                "tool"@ => JsonTree::Text(tool),
                "arguments"@ => match parsed_json(raw_arguments) {
                    Some(value) => value,
                    None => JsonTree::Text(raw_arguments),
                },
            ],
        ),
        payload matches PayloadModel::LocalShell { params } ==> payload_input(payload)
            == JsonTree::Object(
            map![
                "command"@ => JsonTree::Array(
                    Seq::new(params.command.len(), |i: int| JsonTree::Text(params.command[i])),
                ),
                "workdir"@ => match params.workdir {
                    Some(text) => JsonTree::Text(text),
                    None => JsonTree::Null,
                },
                "timeout_ms"@ => match params.timeout_ms {
                    Some(n) => JsonTree::Unsigned(n),
                    None => JsonTree::Null,
                },
                "sandbox_permissions"@ => match params.sandbox_permissions {
                    Some(text) => JsonTree::Text(text),
                    None => JsonTree::Null,
                },
                "prefix_rule"@ => match params.prefix_rule {
                    Some(rule) => JsonTree::Array(
                        Seq::new(rule.len(), |i: int| JsonTree::Text(rule[i])),
                    ),
                    None => JsonTree::Null,
                },
                "justification"@ => match params.justification {
                    Some(text) => JsonTree::Text(text),
                    None => JsonTree::Null,
                },
            ],
        ),
{
    match payload {
        PayloadModel::Mcp { server, tool, raw_arguments } => {
            let value = arguments_value(parsed_json(raw_arguments), raw_arguments);
            lemma_three_fields(
                ("server"@, JsonTree::Text(server)),
                ("tool"@, JsonTree::Text(tool)),
                ("arguments"@, value),
            );
        },
        PayloadModel::LocalShell { params } => {
            let command = Seq::new(
                params.command.len(),
                |i: int| JsonTree::Text(params.command[i]),
            );
            assert(text_array(params.command)->Array_0 =~= command);
            if let Some(rule) = params.prefix_rule {
                assert(text_array(rule)->Array_0 =~= Seq::new(
                    rule.len(),
                    |i: int| JsonTree::Text(rule[i]),
                ));
            }
            lemma_six_fields(
                ("command"@, text_array(params.command)),
                ("workdir"@, text_or_null(params.workdir)),
                ("timeout_ms"@, unsigned_or_null(params.timeout_ms)),
                ("sandbox_permissions"@, text_or_null(params.sandbox_permissions)),
                ("prefix_rule"@, text_array_or_null(params.prefix_rule)),
                ("justification"@, text_or_null(params.justification)),
            );
        },
        _ => {},
    }
}

pub(crate) proof fn lemma_three_fields(
    a: (Seq<char>, JsonTree),
    b: (Seq<char>, JsonTree),
    c: (Seq<char>, JsonTree),
)
    ensures
        object(seq![a, b, c]) == JsonTree::Object(map![a.0 => a.1, b.0 => b.1, c.0 => c.1]),
{
    let entries = seq![a, b, c];
    reveal_with_fuel(fields, 4);
    assert(entries.drop_last() =~= seq![a, b]);
    assert(entries.drop_last().drop_last() =~= seq![a]);
    assert(entries.drop_last().drop_last().drop_last() =~= seq![]);
}

pub(crate) proof fn lemma_six_fields(
    a: (Seq<char>, JsonTree),
    b: (Seq<char>, JsonTree),
    c: (Seq<char>, JsonTree),
    d: (Seq<char>, JsonTree),
    e: (Seq<char>, JsonTree),
    f: (Seq<char>, JsonTree),
)
    ensures
        object(seq![a, b, c, d, e, f]) == JsonTree::Object(
            map![a.0 => a.1, b.0 => b.1, c.0 => c.1, d.0 => d.1, e.0 => e.1, f.0 => f.1],
        ),
{
    let entries = seq![a, b, c, d, e, f];
    lemma_three_fields(a, b, c);
    let five = entries.drop_last();
    let four = five.drop_last();
    assert(four.drop_last() =~= seq![a, b, c]);
    assert(fields(four) == fields(four.drop_last()).insert(d.0, d.1));
    assert(fields(five) == fields(four).insert(e.0, e.1));
    assert(fields(entries) == fields(five).insert(f.0, f.1));
}

/// What storing a rewritten input does: a text takes the place of the arguments or the input,
/// and of nothing else; where there is no text, the payload stays and the error says why.
pub proof fn law_what_storing_a_text_does(
    payload: PayloadModel,
    text: Seq<char>,
    error: Seq<char>,
)
    ensures
        stored_text(payload, Ok(text)).1 is Ok,
        payload is Function ==> stored_text(payload, Ok(text)).0 == (PayloadModel::Function {
            arguments: text,
        }),
        payload is Custom ==> stored_text(payload, Ok(text)).0 == (PayloadModel::Custom {
            input: text,
        }),
        payload matches PayloadModel::Mcp { server, tool, .. } ==> stored_text(payload, Ok(text)).0
            == (PayloadModel::Mcp { server, tool, raw_arguments: text }),
        stored_text(payload, Err(error)) == (
            payload,
            Err::<(), Seq<char>>("failed to serialize updatedInput: "@ + error),
        ),
{
}

/// What storing rewritten shell parameters does: they take the place of the old ones, all of
/// them; where they do not decode, the old ones stay and the error says why.
pub proof fn law_what_storing_parameters_does(
    payload: PayloadModel,
    params: ShellParamsModel,
    error: Seq<char>,
)
    ensures
        stored_params(payload, Ok(params)).1 is Ok,
        stored_params(payload, Ok(params)).0 == (PayloadModel::LocalShell { params }),
        stored_params(payload, Err(error)) == (
            payload,
            Err::<(), Seq<char>>("invalid updatedInput for shell params: "@ + error),
        ),
{
}

/// A rewritten input that is a text is stored as it stands, any other as its JSON text.
pub proof fn law_what_a_rewritten_input_is_stored_as(updated: JsonTree)
    ensures
        updated matches JsonTree::Text(text) ==> input_text(updated) == Ok::<Seq<char>, Seq<char>>(
            text,
        ),
        !(updated is Text) ==> input_text(updated) == rendered_json(updated),
{
}

/// A result is a failure exactly where its model is, and holds what its model holds.
pub proof fn law_what_results_hold(
    text: Result<String, String>,
    params: Result<ShellToolCallParams, String>,
    stored: Result<(), String>,
)
    ensures
        text is Ok <==> text_result(text) is Ok,
        text is Ok ==> text_result(text)->Ok_0 == text->Ok_0@,
        text is Err ==> text_result(text)->Err_0 == text->Err_0@,
        params is Ok <==> params_result(params) is Ok,
        params is Ok ==> params_result(params)->Ok_0 == params->Ok_0@,
        params is Err ==> params_result(params)->Err_0 == params->Err_0@,
        stored is Ok <==> stored_result(stored) is Ok,
        stored is Err ==> stored_result(stored)->Err_0 == stored->Err_0@,
{
}

} // verus!
