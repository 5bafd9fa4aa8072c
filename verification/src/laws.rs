use crate::convert;
use crate::request;
use crate::response;
use crate::stream::{self, ChatStreamEvent, ChatStreamV, FrameV};
use crate::json::{self, JsonV};
use crate::sse;
use crate::wire;
use vstd::prelude::*;

verus! {

/// Mapping a role twice maps it as once: `system` stays `system`.
pub proof fn law_chat_role_idempotent(role: Seq<char>)
    ensures
        convert::chat_role(convert::chat_role(role)) == convert::chat_role(role),
{
    reveal_strlit("developer");
    reveal_strlit("system");
    if role == "developer"@ {
        assert("system"@[0] != "developer"@[0]);
    }
}

/// A Chat function tool choice that names its function comes back as the
/// same choice from a trip through the Responses form.
pub proof fn law_tool_choice_round_trip(choice: JsonV, name: Seq<char>)
    requires
        convert::is_function_typed(choice),
        json::path2(choice, "function"@, "name"@) == Some(JsonV::Str(name)),
        name.len() > 0,
    ensures
        convert::chat_tool_choice(convert::responses_tool_choice(choice)) == Some(
            JsonV::Object(
                seq![
                    ("type"@, json::str_v("function"@)),
                    ("function"@, JsonV::Object(seq![("name"@, json::str_v(name))])),
                ],
            ),
        ),
{
    reveal_strlit("type");
    reveal_strlit("function");
    reveal_strlit("name");
    reveal_with_fuel(json::lookup, 3);
    let r = convert::responses_tool_choice(choice);
    assert(r->Object_0[0].0 == "type"@);
    assert("name"@[0] != "function"@[0]);
    assert("type"@[0] != "function"@[0]);
    assert("type"@[0] != "name"@[0]);
    assert(r.get("function"@) is None);
    assert(json::get_str(r, "name"@) == Some(name));
}


/// A Chat function tool with a `function` object that names the function
/// comes back from a trip through the Responses form as the canonical Chat
/// tool: its name, description (default `""`) and parameters (default `{}`).
pub proof fn law_tool_round_trip(tool: JsonV, func: JsonV, name: Seq<char>)
    requires
        convert::is_function_typed(tool),
        tool.get("function"@) == Some(func),
        json::get_str(func, "name"@) == Some(name),
        name.len() > 0,
    ensures
        convert::chat_tool(convert::responses_tool(tool)) == Some(
            JsonV::Object(
                seq![
                    ("type"@, json::str_v("function"@)),
                    ("function"@, JsonV::Object(seq![
                        ("name"@, json::str_v(name)),
                        ("description"@, json::get_or(func, "description"@, json::str_v(""@))),
                        ("parameters"@, json::get_or(func, "parameters"@, json::empty_object())),
                    ])),
                ],
            ),
        ),
{
    reveal_strlit("type");
    reveal_strlit("function");
    reveal_strlit("name");
    reveal_strlit("description");
    reveal_strlit("parameters");
    reveal_with_fuel(json::lookup, 5);
    let r = convert::responses_tool(tool);
    assert("name"@[0] != "function"@[0]);
    assert("type"@[0] != "function"@[0]);
    assert("type"@[0] != "name"@[0]);
    assert("description"@[0] != "function"@[0]);
    assert("parameters"@[0] != "function"@[0]);
    assert("type"@[0] != "description"@[0]);
    assert("name"@[0] != "description"@[0]);
    assert("type"@[0] != "parameters"@[0]);
    assert("name"@[0] != "parameters"@[0]);
    assert("description"@[0] != "parameters"@[0]);
    assert(json::get_str(r, "name"@) == Some(name));
    assert(r.get("function"@) is None);
    assert(r.get("description"@) == Some(json::get_or(func, "description"@, json::str_v(""@))));
    assert(r.get("parameters"@) == Some(json::get_or(func, "parameters"@, json::empty_object())));
}

/// A Chat response with a string message content, no tool calls and a
/// `stop` or `length` finish keeps its text and finish reason through a trip
/// through the Responses form.
pub proof fn law_response_text_round_trip(body: JsonV, content: Seq<char>)
    requires
        json::get_or(response::first_choice(body), "message"@, json::empty_object()).get(
            "content"@,
        ) == Some(JsonV::Str(content)),
        json::get_or(response::first_choice(body), "message"@, json::empty_object()).get(
            "tool_calls"@,
        ) is None,
        response::finish_reason(body) == "stop"@ || response::finish_reason(body) == "length"@,
    ensures
        response::chat_response_message(response::responses_response(body)) == JsonV::Object(
            seq![("role"@, json::str_v("assistant"@)), ("content"@, json::str_v(content))],
        ),
        response::chat_finish_reason(response::responses_response(body)) == response::finish_reason(
            body,
        ),
{
    reveal_strlit("type");
    reveal_strlit("role");
    reveal_strlit("content");
    reveal_strlit("text");
    reveal_strlit("message");
    reveal_strlit("function_call");
    reveal_strlit("id");
    reveal_strlit("object");
    reveal_strlit("model");
    reveal_strlit("status");
    reveal_strlit("output");
    reveal_strlit("incomplete_details");
    reveal_strlit("reason");
    reveal_strlit("incomplete");
    reveal_strlit("completed");
    reveal_strlit("length");
    reveal_strlit("stop");
    reveal_strlit("usage");
    reveal_with_fuel(json::lookup, 7);
    let rb = response::responses_response(body);
    let items = response::responses_output(body);
    assert(items.len() == 1);
    let item = items[0];
    assert("type"@[0] != "content"@[0]);
    assert("role"@[0] != "content"@[0]);
    assert("type"@[0] != "text"@[1]);
    assert(json::get_str(item, "type"@) == Some("message"@));
    assert("message"@[0] != "function_call"@[0]);
    let parts = response::get_array(item, "content"@).unwrap();
    assert(json::get_str(parts[0], "text"@) == Some(content));
    assert(parts.len() == 1);
    assert(parts.drop_last().len() == 0);
    assert(response::output_parts_text(parts.drop_last()) == Seq::<char>::empty());
    assert(response::output_parts_text(parts) =~= content);
    assert(items.drop_last().len() == 0);
    assert(response::output_text(items.drop_last()) == Seq::<char>::empty());
    assert(response::output_text(items) =~= content);
    assert(response::output_tool_calls(items.drop_last()).len() == 0);
    assert(response::output_tool_calls(items).len() == 0);
    assert("id"@[0] != "output"@[0]);
    assert("object"@[1] != "output"@[1]);
    assert("model"@[0] != "output"@[0]);
    assert("status"@[0] != "output"@[0]);
    assert(response::output_items(rb) == items);
    assert("id"@[0] != "status"@[0]);
    assert("object"@[0] != "status"@[0]);
    assert("model"@[0] != "status"@[0]);
    assert("id"@[0] != "incomplete_details"@[1]);
    assert("object"@[0] != "incomplete_details"@[0]);
    assert("model"@[0] != "incomplete_details"@[0]);
    assert("status"@[0] != "incomplete_details"@[0]);
    assert("output"@[0] != "incomplete_details"@[0]);
    assert("incomplete"@[0] != "completed"@[0]);
    assert("length"@[0] != "stop"@[0]);
}


/// The Chat tool call that a Chat tool call comes back as from a trip
/// through the Responses form: its id (`call_1` where it has none), and its
/// function's name (`function` where it has none) and arguments (`{}` where
/// it has none).
pub open spec fn canonical_tool_call(call: JsonV) -> JsonV {
    JsonV::Object(
        seq![
            ("id"@, json::get_or(call, "id"@, json::str_v("call_1"@))),
            ("type"@, json::str_v("function"@)),
            ("function"@, JsonV::Object(seq![
                ("name"@, json::opt_or(json::path2(call, "function"@, "name"@), json::str_v("function"@))),
                ("arguments"@, json::opt_or(json::path2(call, "function"@, "arguments"@), json::str_v("{}"@))),
            ])),
        ],
    )
}

proof fn lemma_function_call_item(call: JsonV)
    ensures
        json::get_str(response::function_call_item(call), "type"@) == Some("function_call"@),
        response::chat_tool_call(response::function_call_item(call)) == canonical_tool_call(call),
{
    reveal_strlit("type");
    reveal_strlit("call_id");
    reveal_strlit("name");
    reveal_strlit("arguments");
    reveal_with_fuel(json::lookup, 5);
    assert("type"@[0] != "call_id"@[0]);
    assert("type"@[0] != "name"@[0]);
    assert("type"@[0] != "arguments"@[0]);
    assert("call_id"@[0] != "name"@[0]);
    assert("call_id"@[0] != "arguments"@[0]);
    assert("name"@[0] != "arguments"@[0]);
}

/// Function call items add no message text and one tool call each.
proof fn lemma_function_call_items(pre: Seq<JsonV>, calls: Seq<JsonV>)
    ensures
        response::output_text(pre + calls.map_values(|c: JsonV| response::function_call_item(c)))
            == response::output_text(pre),
        response::output_tool_calls(pre + calls.map_values(|c: JsonV| response::function_call_item(c)))
            == response::output_tool_calls(pre) + calls.map_values(|c: JsonV| canonical_tool_call(c)),
    decreases calls.len(),
{
    let items = pre + calls.map_values(|c: JsonV| response::function_call_item(c));
    if calls.len() == 0 {
        assert(items =~= pre);
        assert(response::output_tool_calls(pre) + calls.map_values(|c: JsonV| canonical_tool_call(c))
            =~= response::output_tool_calls(pre));
    } else {
        let prev = calls.drop_last();
        lemma_function_call_items(pre, prev);
        lemma_function_call_item(calls.last());
        reveal_strlit("message");
        reveal_strlit("function_call");
        assert("message"@[0] != "function_call"@[0]);
        assert(items.drop_last() =~= pre + prev.map_values(|c: JsonV| response::function_call_item(c)));
        assert(items.last() == response::function_call_item(calls.last()));
        assert(response::output_text(items) =~= response::output_text(items.drop_last()));
        assert(calls.map_values(|c: JsonV| canonical_tool_call(c)) =~= prev.map_values(
            |c: JsonV| canonical_tool_call(c),
        ).push(canonical_tool_call(calls.last())));
        assert(response::output_tool_calls(items) =~= response::output_tool_calls(pre)
            + calls.map_values(|c: JsonV| canonical_tool_call(c)));
    }
}

/// A Chat response with a string message content and tool calls keeps both
/// through a trip through the Responses form: the text, and the tool calls
/// in order, each in its canonical form; the finish comes back as `length`
/// for a `length` finish and as `tool_calls` for any other.
pub proof fn law_response_tool_calls_round_trip(body: JsonV, content: Seq<char>, calls: Seq<JsonV>)
    requires
        json::get_or(response::first_choice(body), "message"@, json::empty_object()).get(
            "content"@,
        ) == Some(JsonV::Str(content)),
        json::get_or(response::first_choice(body), "message"@, json::empty_object()).get(
            "tool_calls"@,
        ) == Some(JsonV::Array(calls)),
        calls.len() > 0,
    ensures
        response::chat_response_message(response::responses_response(body)) == JsonV::Object(
            seq![
                ("role"@, json::str_v("assistant"@)),
                ("content"@, json::str_v(content)),
                ("tool_calls"@, JsonV::Array(calls.map_values(|c: JsonV| canonical_tool_call(c)))),
            ],
        ),
        response::chat_finish_reason(response::responses_response(body)) == if response::finish_reason(
            body,
        ) == "length"@ {
            "length"@
        } else {
            "tool_calls"@
        },
{
    reveal_strlit("type");
    reveal_strlit("role");
    reveal_strlit("content");
    reveal_strlit("text");
    reveal_strlit("message");
    reveal_strlit("function_call");
    reveal_strlit("id");
    reveal_strlit("object");
    reveal_strlit("model");
    reveal_strlit("status");
    reveal_strlit("output");
    reveal_strlit("incomplete_details");
    reveal_strlit("reason");
    reveal_strlit("incomplete");
    reveal_strlit("completed");
    reveal_strlit("usage");
    reveal_with_fuel(json::lookup, 7);
    let rb = response::responses_response(body);
    let items = response::responses_output(body);
    let fcs = calls.map_values(|c: JsonV| response::function_call_item(c));
    let m = items[0];
    assert(items =~= seq![m] + fcs);
    assert("type"@[0] != "content"@[0]);
    assert("role"@[0] != "content"@[0]);
    assert("type"@[0] != "text"@[1]);
    assert(json::get_str(m, "type"@) == Some("message"@));
    assert("message"@[0] != "function_call"@[0]);
    let parts = response::get_array(m, "content"@).unwrap();
    assert(json::get_str(parts[0], "text"@) == Some(content));
    assert(parts.len() == 1);
    assert(response::output_parts_text(parts.drop_last()) == Seq::<char>::empty());
    assert(response::output_parts_text(parts) =~= content);
    assert(seq![m].drop_last() =~= Seq::<JsonV>::empty());
    assert(seq![m].last() == m);
    assert(response::output_text(Seq::<JsonV>::empty()) == Seq::<char>::empty());
    assert(response::output_tool_calls(Seq::<JsonV>::empty()) == Seq::<JsonV>::empty());
    assert(response::output_text(seq![m]) =~= content);
    assert(response::output_tool_calls(seq![m]) =~= Seq::<JsonV>::empty());
    lemma_function_call_items(seq![m], calls);
    assert(response::output_tool_calls(items) =~= calls.map_values(|c: JsonV| canonical_tool_call(c)));
    assert(response::output_text(items) == content);
    assert("id"@[0] != "output"@[0]);
    assert("object"@[1] != "output"@[1]);
    assert("model"@[0] != "output"@[0]);
    assert("status"@[0] != "output"@[0]);
    assert(response::output_items(rb) == items);
    assert("id"@[0] != "status"@[0]);
    assert("object"@[0] != "status"@[0]);
    assert("model"@[0] != "status"@[0]);
    assert("id"@[0] != "incomplete_details"@[1]);
    assert("object"@[0] != "incomplete_details"@[0]);
    assert("model"@[0] != "incomplete_details"@[0]);
    assert("status"@[0] != "incomplete_details"@[0]);
    assert("output"@[0] != "incomplete_details"@[0]);
    assert("incomplete"@[0] != "completed"@[0]);
    assert(response::output_tool_calls(response::output_items(rb)).len() > 0);
    assert(response::chat_response_message(rb)->Object_0 =~= seq![
        ("role"@, json::str_v("assistant"@)),
        ("content"@, json::str_v(content)),
        ("tool_calls"@, JsonV::Array(calls.map_values(|c: JsonV| canonical_tool_call(c)))),
    ]);
}

/// A Chat response keeps its `id` and `model` through a trip through the
/// Responses form (`resp_chat` and `unknown` where it has none), and its
/// `usage`: the prompt and completion tokens (0 where missing) and their
/// total.
pub proof fn law_response_id_model_usage_round_trip(body: JsonV)
    ensures
        response::chat_response(response::responses_response(body)).get("id"@) == Some(
            json::get_or(body, "id"@, json::str_v("resp_chat"@)),
        ),
        response::chat_response(response::responses_response(body)).get("model"@) == Some(
            json::get_or(body, "model"@, json::str_v("unknown"@)),
        ),
        response::chat_response(response::responses_response(body)).get("usage"@) == match body.get(
            "usage"@,
        ) {
            Some(u) => Some(
                JsonV::Object(
                    seq![
                        ("prompt_tokens"@, json::get_or(u, "prompt_tokens"@, json::int_v(0))),
                        ("completion_tokens"@, json::get_or(u, "completion_tokens"@, json::int_v(0))),
                        ("total_tokens"@, json::int_v(
                            (response::token_count(u, "prompt_tokens"@) + response::token_count(
                                u,
                                "completion_tokens"@,
                            )) as i64,
                        )),
                    ],
                ),
            ),
            None => None,
        },
{
    reveal_strlit("id");
    reveal_strlit("object");
    reveal_strlit("model");
    reveal_strlit("status");
    reveal_strlit("output");
    reveal_strlit("incomplete_details");
    reveal_strlit("usage");
    reveal_strlit("choices");
    reveal_strlit("input_tokens");
    reveal_strlit("output_tokens");
    reveal_strlit("input_tokens_details");
    reveal_with_fuel(json::lookup, 8);
    assert("id"@[0] != "model"@[0]);
    assert("id"@[0] != "usage"@[0]);
    assert("object"@[0] != "model"@[0]);
    assert("object"@[0] != "usage"@[0]);
    assert("model"@[0] != "usage"@[0]);
    assert("status"@[0] != "model"@[0]);
    assert("status"@[0] != "usage"@[0]);
    assert("output"@[0] != "model"@[0]);
    assert("output"@[0] != "usage"@[0]);
    assert("incomplete_details"@[0] != "model"@[0]);
    assert("incomplete_details"@[0] != "usage"@[0]);
    assert("choices"@[0] != "usage"@[0]);
    assert("choices"@[0] != "model"@[0]);
    assert("input_tokens"@[0] != "output_tokens"@[0]);
    let rb = response::responses_response(body);
    assert(rb.get("id"@) == Some(json::get_or(body, "id"@, json::str_v("resp_chat"@))));
    assert(rb.get("model"@) == Some(json::get_or(body, "model"@, json::str_v("unknown"@))));
    match body.get("usage"@) {
        Some(u) => {
            let ru = response::responses_usage(u);
            assert(rb.get("usage"@) == Some(ru));
            assert(ru.get("input_tokens"@) == Some(json::get_or(u, "prompt_tokens"@, json::int_v(0))));
            assert(ru.get("output_tokens"@) == Some(json::get_or(u, "completion_tokens"@, json::int_v(0))));
            assert(json::int_v(0).as_i64() == Some(0i64));
            assert(response::token_count(ru, "input_tokens"@) == response::token_count(u, "prompt_tokens"@));
            assert(response::token_count(ru, "output_tokens"@) == response::token_count(u, "completion_tokens"@));
        },
        None => {
            assert(rb.get("usage"@) is None);
        },
    }
}

/// The Chat response for any Responses response has one choice, with index
/// 0, whose `assistant` message holds the text of the message items of the
/// output, in order, and, exactly when the output has function call items,
/// their tool calls, in order.
pub proof fn law_chat_response_message(body: JsonV)
    ensures
        response::chat_response(body).get("choices"@) == Some(
            JsonV::Array(
                seq![
                    JsonV::Object(
                        seq![
                            ("index"@, json::int_v(0)),
                            ("message"@, response::chat_response_message(body)),
                            ("finish_reason"@, json::str_v(response::chat_finish_reason(body))),
                        ],
                    ),
                ],
            ),
        ),
        response::chat_response_message(body).get("role"@) == Some(json::str_v("assistant"@)),
        response::chat_response_message(body).get("content"@) == Some(
            json::str_v(response::output_text(response::output_items(body))),
        ),
        response::chat_response_message(body).get("tool_calls"@) == if response::output_tool_calls(
            response::output_items(body),
        ).len() > 0 {
            Some(JsonV::Array(response::output_tool_calls(response::output_items(body))))
        } else {
            None
        },
{
    reveal_strlit("id");
    reveal_strlit("object");
    reveal_strlit("model");
    reveal_strlit("choices");
    reveal_strlit("role");
    reveal_strlit("content");
    reveal_strlit("tool_calls");
    reveal_with_fuel(json::lookup, 4);
    assert("id"@[0] != "choices"@[0]);
    assert("object"@[0] != "choices"@[0]);
    assert("model"@[0] != "choices"@[0]);
    assert("role"@[0] != "content"@[0]);
    assert("role"@[0] != "tool_calls"@[0]);
    assert("content"@[0] != "tool_calls"@[0]);
}

/// The Responses response for a Chat response: `object` is `response`;
/// `id` and `model` are the response's (`resp_chat` and `unknown` where
/// missing); a `length` finish makes it `incomplete` for
/// `max_output_tokens`, any other finish `completed` with no
/// `incomplete_details`; `output` is the converted message and tool calls;
/// `usage` is the converted usage, where there is one.
pub proof fn law_responses_response_members(body: JsonV)
    ensures
        response::responses_response(body).get("object"@) == Some(json::str_v("response"@)),
        response::responses_response(body).get("id"@) == Some(
            json::get_or(body, "id"@, json::str_v("resp_chat"@)),
        ),
        response::responses_response(body).get("model"@) == Some(
            json::get_or(body, "model"@, json::str_v("unknown"@)),
        ),
        response::responses_response(body).get("status"@) == Some(
            json::str_v(
                if response::finish_reason(body) == "length"@ {
                    "incomplete"@
                } else {
                    "completed"@
                },
            ),
        ),
        response::responses_response(body).get("incomplete_details"@) == if response::finish_reason(
            body,
        ) == "length"@ {
            Some(JsonV::Object(seq![("reason"@, json::str_v("max_output_tokens"@))]))
        } else {
            None
        },
        response::responses_response(body).get("output"@) == Some(
            JsonV::Array(response::responses_output(body)),
        ),
        response::responses_response(body).get("usage"@) == match body.get("usage"@) {
            Some(u) => Some(response::responses_usage(u)),
            None => None,
        },
{
    reveal_strlit("id");
    reveal_strlit("object");
    reveal_strlit("model");
    reveal_strlit("status");
    reveal_strlit("output");
    reveal_strlit("incomplete_details");
    reveal_strlit("usage");
    reveal_with_fuel(json::lookup, 8);
    assert("id"@[0] != "object"@[0]);
    assert("id"@[0] != "model"@[0]);
    assert("id"@[0] != "status"@[0]);
    assert("id"@[0] != "output"@[0]);
    assert("id"@[1] != "incomplete_details"@[1]);
    assert("id"@[0] != "usage"@[0]);
    assert("object"@[0] != "model"@[0]);
    assert("object"@[0] != "status"@[0]);
    assert("object"@[1] != "output"@[1]);
    assert("object"@[0] != "incomplete_details"@[0]);
    assert("object"@[0] != "usage"@[0]);
    assert("model"@[0] != "status"@[0]);
    assert("model"@[0] != "output"@[0]);
    assert("model"@[0] != "incomplete_details"@[0]);
    assert("model"@[0] != "usage"@[0]);
    assert("status"@[0] != "output"@[0]);
    assert("status"@[0] != "incomplete_details"@[0]);
    assert("status"@[0] != "usage"@[0]);
    assert("output"@[0] != "incomplete_details"@[0]);
    assert("output"@[0] != "usage"@[0]);
    assert("incomplete_details"@[0] != "usage"@[0]);
}

/// A Responses response without function calls keeps the text of its
/// message items, as one message, through a trip through the Chat form; the
/// Chat finish reason it gets there is the one it comes back with.
pub proof fn law_responses_response_text_round_trip(body: JsonV)
    requires
        response::output_tool_calls(response::output_items(body)).len() == 0,
    ensures
        response::responses_output(response::chat_response(body)) == seq![
            JsonV::Object(
                seq![
                    ("type"@, json::str_v("message"@)),
                    ("role"@, json::str_v("assistant"@)),
                    ("content"@, JsonV::Array(seq![
                        JsonV::Object(seq![
                            ("type"@, json::str_v("output_text"@)),
                            ("text"@, json::str_v(response::output_text(response::output_items(body)))),
                        ]),
                    ])),
                ],
            ),
        ],
        response::finish_reason(response::chat_response(body)) == response::chat_finish_reason(body),
{
    reveal_strlit("id");
    reveal_strlit("object");
    reveal_strlit("model");
    reveal_strlit("choices");
    reveal_strlit("index");
    reveal_strlit("message");
    reveal_strlit("finish_reason");
    reveal_strlit("role");
    reveal_strlit("content");
    reveal_strlit("tool_calls");
    reveal_with_fuel(json::lookup, 4);
    let rb = response::chat_response(body);
    let m = response::chat_response_message(body);
    assert("id"@[0] != "choices"@[0]);
    assert("object"@[0] != "choices"@[0]);
    assert("model"@[0] != "choices"@[0]);
    assert("index"@[0] != "message"@[0]);
    assert("index"@[0] != "finish_reason"@[0]);
    assert("message"@[0] != "finish_reason"@[0]);
    assert("role"@[0] != "content"@[0]);
    assert("role"@[0] != "tool_calls"@[0]);
    assert("content"@[0] != "tool_calls"@[0]);
    let ch = response::first_choice(rb);
    assert(json::get_or(ch, "message"@, json::empty_object()) == m);
    assert(m.get("content"@) == Some(json::str_v(response::output_text(response::output_items(body)))));
    assert(m.get("tool_calls"@) is None);
    assert(response::get_array(m, "tool_calls"@) is None);
    assert(response::responses_output(rb) =~= seq![
        JsonV::Object(
            seq![
                ("type"@, json::str_v("message"@)),
                ("role"@, json::str_v("assistant"@)),
                ("content"@, JsonV::Array(seq![
                    JsonV::Object(seq![
                        ("type"@, json::str_v("output_text"@)),
                        ("text"@, json::str_v(response::output_text(response::output_items(body)))),
                    ]),
                ])),
            ],
        ),
    ]);
}

/// A Chat request keeps its model, sampling settings, token limit and
/// reasoning effort through a trip through the Responses form; the string
/// contents of its `system` messages come back as one first `system` message
/// that joins them with newlines.
pub proof fn law_chat_request_round_trip(body: JsonV)
    ensures
        request::chat_request(request::responses_request(body)).get("model"@) == body.get("model"@),
        request::chat_request(request::responses_request(body)).get("stream"@) == body.get(
            "stream"@,
        ),
        request::chat_request(request::responses_request(body)).get("temperature"@) == body.get(
            "temperature"@,
        ),
        request::chat_request(request::responses_request(body)).get("top_p"@) == body.get("top_p"@),
        request::chat_request(request::responses_request(body)).get("max_tokens"@) == (match body.get(
            "max_completion_tokens"@,
        ) {
            Some(v) => Some(v),
            None => body.get("max_tokens"@),
        }),
        request::chat_request(request::responses_request(body)).get("reasoning_effort"@)
            == body.get("reasoning_effort"@),
        request::system_texts(request::message_list(body)).len() > 0 ==> request::chat_messages(
            request::responses_request(body),
        )[0] == JsonV::Object(
            seq![
                ("role"@, json::str_v("system"@)),
                ("content"@, json::str_v(request::join_lines(request::system_texts(request::message_list(body))))),
            ],
        ),
{
    let rq = request::responses_request(body);
    law_responses_request_members(body);
    law_chat_request_members(rq);
}

/// The members `es` without those whose key is `key`.
pub open spec fn without_key(es: Seq<(Seq<char>, JsonV)>, key: Seq<char>) -> Seq<(Seq<char>, JsonV)>
    decreases es.len(),
{
    if es.len() == 0 {
        seq![]
    } else if es[0].0 == key {
        without_key(es.drop_first(), key)
    } else {
        seq![es[0]] + without_key(es.drop_first(), key)
    }
}

proof fn lemma_lookup_without_key(es: Seq<(Seq<char>, JsonV)>, key: Seq<char>, k: Seq<char>)
    ensures
        json::lookup(without_key(es, key), k) == if k == key {
            None
        } else {
            json::lookup(es, k)
        },
    decreases es.len(),
{
    if es.len() > 0 {
        lemma_lookup_without_key(es.drop_first(), key, k);
        if es[0].0 != key {
            let w = seq![es[0]] + without_key(es.drop_first(), key);
            assert(w[0] == es[0]);
            assert(w.drop_first() =~= without_key(es.drop_first(), key));
        }
    }
}

/// String `instructions` put exactly one `system` message with their text
/// before the messages that the request without them gets, and change
/// nothing else of the Chat request; `instructions` of any other kind are
/// ignored: the Chat request is the one of the request without them.
pub proof fn law_instructions_prepend_system(es: Seq<(Seq<char>, JsonV)>)
    ensures
        match json::get_str(JsonV::Object(es), "instructions"@) {
            Some(i) => request::chat_request(JsonV::Object(es)) == JsonV::Object(
                request::chat_request(JsonV::Object(without_key(es, "instructions"@)))->Object_0.drop_last().push(
                    ("messages"@, JsonV::Array(
                        seq![
                            JsonV::Object(seq![("role"@, json::str_v("system"@)), ("content"@, json::str_v(i))]),
                        ] + request::chat_messages(JsonV::Object(without_key(es, "instructions"@))),
                    )),
                ),
            ),
            None => request::chat_request(JsonV::Object(es)) == request::chat_request(
                JsonV::Object(without_key(es, "instructions"@)),
            ),
        },
{
    reveal_strlit("instructions");
    reveal_strlit("model");
    reveal_strlit("stream");
    reveal_strlit("temperature");
    reveal_strlit("top_p");
    reveal_strlit("max_output_tokens");
    reveal_strlit("reasoning");
    reveal_strlit("tool_choice");
    reveal_strlit("tools");
    reveal_strlit("input");
    let ins = "instructions"@;
    let w = without_key(es, ins);
    assert("model"@[0] != ins[0]);
    assert("stream"@[0] != ins[0]);
    assert("temperature"@[0] != ins[0]);
    assert("top_p"@[0] != ins[0]);
    assert("max_output_tokens"@[0] != ins[0]);
    assert("reasoning"@[0] != ins[0]);
    assert("tool_choice"@[0] != ins[0]);
    assert("tools"@[0] != ins[0]);
    assert("input"@[2] != ins[2]);
    lemma_lookup_without_key(es, ins, ins);
    lemma_lookup_without_key(es, ins, "model"@);
    lemma_lookup_without_key(es, ins, "stream"@);
    lemma_lookup_without_key(es, ins, "temperature"@);
    lemma_lookup_without_key(es, ins, "top_p"@);
    lemma_lookup_without_key(es, ins, "max_output_tokens"@);
    lemma_lookup_without_key(es, ins, "reasoning"@);
    lemma_lookup_without_key(es, ins, "tool_choice"@);
    lemma_lookup_without_key(es, ins, "tools"@);
    lemma_lookup_without_key(es, ins, "input"@);
    let b = JsonV::Object(es);
    let b2 = JsonV::Object(w);
    assert(json::get_str(b2, ins) is None);
    assert(request::chat_messages(b2) =~= request::input_messages(b.get("input"@)));
    match json::get_str(b, ins) {
        Some(i) => {
            let sys = JsonV::Object(seq![("role"@, json::str_v("system"@)), ("content"@, json::str_v(i))]);
            assert(request::chat_messages(b) == seq![sys] + request::chat_messages(b2));
            assert(request::chat_request(b)->Object_0 =~= request::chat_request(b2)->Object_0.drop_last().push(
                ("messages"@, JsonV::Array(seq![sys] + request::chat_messages(b2))),
            ));
        },
        None => {
            assert(request::chat_messages(b) =~= request::chat_messages(b2));
        },
    }
}

/// Without string `instructions`, the Chat messages are those of the
/// `input` alone: a string is one `user` message, an object one message, an
/// array one message per convertible item in order, anything else none.
pub proof fn law_messages_without_instructions(body: JsonV)
    requires
        json::get_str(body, "instructions"@) is None,
    ensures
        request::chat_request(body).get("messages"@) == Some(
            JsonV::Array(request::input_messages(body.get("input"@))),
        ),
{
    law_chat_request_members(body);
    assert(request::chat_messages(body) =~= request::input_messages(body.get("input"@)));
}

/// A Chat message of just a string `role`, other than `developer`, and a
/// string `content`, in that order.
pub open spec fn is_plain_message(m: JsonV) -> bool {
    match (json::get_str(m, "role"@), json::get_str(m, "content"@)) {
        (Some(r), Some(c)) => r != "developer"@ && m == JsonV::Object(
            seq![("role"@, json::str_v(r)), ("content"@, json::str_v(c))],
        ),
        _ => false,
    }
}

/// A plain message is its own Chat message when it comes back as an input item.
proof fn lemma_plain_input_item(m: JsonV)
    requires
        is_plain_message(m),
    ensures
        request::input_item_messages(m) == seq![m],
{
    reveal_strlit("type");
    reveal_strlit("role");
    reveal_strlit("content");
    reveal_with_fuel(json::lookup, 3);
    assert("type"@[0] != "role"@[0]);
    assert("type"@[0] != "content"@[0]);
    assert("role"@[0] != "content"@[0]);
    assert(json::get_str(m, "type"@) is None);
    let r = json::get_str(m, "role"@).unwrap();
    let c = json::get_str(m, "content"@).unwrap();
    assert(m.get("content"@) == Some(json::str_v(c)));
    assert(convert::chat_content(json::str_v(c)) == json::str_v(c));
    assert(convert::chat_role(r) == r);
    assert(convert::chat_message(m).unwrap()->Object_0 =~= m->Object_0);
}

proof fn lemma_plain_input_items(items: Seq<JsonV>)
    requires
        forall|i: int| 0 <= i < items.len() ==> is_plain_message(#[trigger] items[i]),
    ensures
        request::input_items_messages(items) == items,
    decreases items.len(),
{
    if items.len() > 0 {
        let prev = items.drop_last();
        assert forall|i: int| 0 <= i < prev.len() implies is_plain_message(#[trigger] prev[i]) by {
            assert(prev[i] == items[i]);
        }
        lemma_plain_input_items(prev);
        lemma_plain_input_item(items.last());
        assert(prev + seq![items.last()] =~= items);
    }
}

proof fn lemma_non_system_plain(msgs: Seq<JsonV>)
    requires
        forall|i: int| 0 <= i < msgs.len() ==> request::is_system_message(#[trigger] msgs[i]) || is_plain_message(msgs[i]),
    ensures
        forall|i: int| 0 <= i < request::non_system_messages(msgs).len() ==> is_plain_message(
            #[trigger] request::non_system_messages(msgs)[i],
        ),
    decreases msgs.len(),
{
    if msgs.len() > 0 {
        let prev = msgs.drop_last();
        assert forall|i: int| 0 <= i < prev.len() implies request::is_system_message(#[trigger] prev[i])
            || is_plain_message(prev[i]) by {
            assert(prev[i] == msgs[i]);
        }
        lemma_non_system_plain(prev);
        let last = msgs[msgs.len() - 1];
        assert(msgs.last() == last);
        let n0 = request::non_system_messages(prev);
        let n1 = request::non_system_messages(msgs);
        if !request::is_system_message(last) {
            assert(n1 == n0.push(last));
            assert forall|i: int| 0 <= i < n1.len() implies is_plain_message(#[trigger] n1[i]) by {
                if i < n0.len() {
                    assert(n1[i] == n0[i]);
                } else {
                    assert(n1[i] == last);
                }
            }
        } else {
            assert(n1 == n0);
        }
    }
}

/// A Chat request whose messages are each a `system` message or a plain
/// one (a string role other than `developer` and a string content) gets its
/// plain messages back, in order, from a trip through the Responses form,
/// after one `system` message that joins the system texts, if there are any.
pub proof fn law_chat_request_messages_round_trip(body: JsonV)
    requires
        forall|i: int| 0 <= i < request::message_list(body).len() ==> request::is_system_message(
            #[trigger] request::message_list(body)[i],
        ) || is_plain_message(request::message_list(body)[i]),
    ensures
        request::chat_request(request::responses_request(body)).get("messages"@) == Some(
            JsonV::Array(
                (if request::system_texts(request::message_list(body)).len() > 0 {
                    seq![
                        JsonV::Object(
                            seq![
                                ("role"@, json::str_v("system"@)),
                                ("content"@, json::str_v(request::join_lines(request::system_texts(request::message_list(body))))),
                            ],
                        ),
                    ]
                } else {
                    seq![]
                }) + request::non_system_messages(request::message_list(body)),
            ),
        ),
{
    let rq = request::responses_request(body);
    law_responses_request_members(body);
    law_chat_request_members(rq);
    let nsm = request::non_system_messages(request::message_list(body));
    lemma_non_system_plain(request::message_list(body));
    lemma_plain_input_items(nsm);
    assert(request::input_messages(rq.get("input"@)) == nsm);
}

/// A Chat function tool whose `function` object has a non-empty string name.
pub open spec fn is_named_function_tool(tool: JsonV) -> bool {
    convert::is_function_typed(tool) && match tool.get("function"@) {
        Some(func) => match json::get_str(func, "name"@) {
            Some(n) => n.len() > 0,
            None => false,
        },
        None => false,
    }
}

/// The canonical form of a Chat function tool: its function's name,
/// description (`""` where it has none) and parameters (`{}` where it has
/// none).
pub open spec fn canonical_chat_tool(tool: JsonV) -> JsonV {
    let func = json::get_or(tool, "function"@, json::empty_object());
    JsonV::Object(
        seq![
            ("type"@, json::str_v("function"@)),
            ("function"@, JsonV::Object(seq![
                ("name"@, json::get_or(func, "name"@, json::str_v(""@))),
                ("description"@, json::get_or(func, "description"@, json::str_v(""@))),
                ("parameters"@, json::get_or(func, "parameters"@, json::empty_object())),
            ])),
        ],
    )
}

proof fn lemma_tool_list_round_trip(ts: Seq<JsonV>)
    requires
        forall|i: int| 0 <= i < ts.len() ==> is_named_function_tool(#[trigger] ts[i]),
    ensures
        convert::chat_tool_list(ts.map_values(|t: JsonV| convert::responses_tool(t)))
            == ts.map_values(|t: JsonV| canonical_chat_tool(t)),
    decreases ts.len(),
{
    let rs = ts.map_values(|t: JsonV| convert::responses_tool(t));
    let cs = ts.map_values(|t: JsonV| canonical_chat_tool(t));
    if ts.len() == 0 {
        assert(rs =~= Seq::<JsonV>::empty());
        assert(cs =~= Seq::<JsonV>::empty());
    } else {
        let prev = ts.drop_last();
        assert forall|i: int| 0 <= i < prev.len() implies is_named_function_tool(#[trigger] prev[i]) by {
            assert(prev[i] == ts[i]);
        }
        lemma_tool_list_round_trip(prev);
        let last = ts[ts.len() - 1];
        assert(is_named_function_tool(last));
        let func = last.get("function"@).unwrap();
        let name = json::get_str(func, "name"@).unwrap();
        law_tool_round_trip(last, func, name);
        assert(rs.drop_last() =~= prev.map_values(|t: JsonV| convert::responses_tool(t)));
        assert(rs.last() == convert::responses_tool(last));
        assert(cs =~= prev.map_values(|t: JsonV| canonical_chat_tool(t)).push(canonical_chat_tool(last)));
    }
}

/// A tool that the Responses-to-Chat tool conversion gives is kept as it is
/// by a second conversion.
proof fn lemma_chat_tool_fixed(tool: JsonV)
    requires
        convert::chat_tool(tool) is Some,
    ensures
        convert::chat_tool(convert::chat_tool(tool).unwrap()) == convert::chat_tool(tool),
{
    reveal_strlit("type");
    reveal_strlit("function");
    reveal_strlit("name");
    reveal_with_fuel(json::lookup, 3);
    let t = convert::chat_tool(tool).unwrap();
    if tool.get("function"@) is None {
        assert("type"@[0] != "function"@[0]);
        assert("type"@[0] != "name"@[0]);
        assert("function"@[0] != "name"@[0]);
        let name = convert::tool_name(tool).unwrap();
        assert(convert::is_function_typed(t));
        assert(json::get_str(t, "name"@) is None);
        assert(convert::tool_name(t) == Some(name));
        assert(t.get("function"@) is Some);
    }
}

proof fn lemma_chat_tool_list_fixed(tools: Seq<JsonV>)
    ensures
        convert::chat_tool_list(convert::chat_tool_list(tools)) == convert::chat_tool_list(tools),
        forall|i: int| 0 <= i < convert::chat_tool_list(tools).len() ==> convert::chat_tool(
            #[trigger] convert::chat_tool_list(tools)[i],
        ) == Some(convert::chat_tool_list(tools)[i]),
    decreases tools.len(),
{
    if tools.len() > 0 {
        let prev = tools.drop_last();
        lemma_chat_tool_list_fixed(prev);
        let l0 = convert::chat_tool_list(prev);
        let l1 = convert::chat_tool_list(tools);
        match convert::chat_tool(tools.last()) {
            Some(t) => {
                lemma_chat_tool_fixed(tools.last());
                assert(l1 == l0.push(t));
                assert(l1.drop_last() =~= l0);
                assert forall|i: int| 0 <= i < l1.len() implies convert::chat_tool(#[trigger] l1[i]) == Some(l1[i]) by {
                    if i < l0.len() {
                        assert(l1[i] == l0[i]);
                    }
                }
            },
            None => {},
        }
    }
}

/// Converting Responses tools to Chat tools a second time changes nothing.
pub proof fn law_chat_tools_idempotent(tools: JsonV)
    ensures
        convert::chat_tools(convert::chat_tools(tools)) == convert::chat_tools(tools),
{
    match tools.as_array() {
        Some(arr) => lemma_chat_tool_list_fixed(arr),
        None => {},
    }
}

/// Chat function tools already in canonical form (a non-empty function
/// name, a description and parameters) come back exactly from a trip
/// through the Responses tool form.
pub proof fn law_canonical_tools_round_trip(ts: Seq<JsonV>)
    requires
        forall|i: int| 0 <= i < ts.len() ==> is_named_function_tool(#[trigger] ts[i]) && ts[i]
            == canonical_chat_tool(ts[i]),
    ensures
        convert::chat_tools(convert::responses_tools(JsonV::Array(ts))) == JsonV::Array(ts),
{
    lemma_tool_list_round_trip(ts);
    assert(ts.map_values(|t: JsonV| canonical_chat_tool(t)) =~= ts);
}

/// A Chat request whose `tools` is an array of function tools that each
/// name their function gets them back, in order and in canonical form, from
/// a trip through the Responses form.
pub proof fn law_chat_request_tools_round_trip(body: JsonV, ts: Seq<JsonV>)
    requires
        body.get("tools"@) == Some(JsonV::Array(ts)),
        forall|i: int| 0 <= i < ts.len() ==> is_named_function_tool(#[trigger] ts[i]),
    ensures
        request::chat_request(request::responses_request(body)).get("tools"@) == Some(
            JsonV::Array(ts.map_values(|t: JsonV| canonical_chat_tool(t))),
        ),
{
    law_responses_request_members(body);
    law_chat_request_members(request::responses_request(body));
    lemma_tool_list_round_trip(ts);
}

/// A Chat request's tool choice comes back from a trip through the
/// Responses form: a string choice as it is, and a function choice that
/// names its function as `{type: function, function: {name}}`.
pub proof fn law_chat_request_tool_choice_round_trip(body: JsonV, choice: JsonV)
    requires
        body.get("tool_choice"@) == Some(choice),
    ensures
        choice.as_str() is Some ==> request::chat_request(request::responses_request(body)).get(
            "tool_choice"@,
        ) == Some(choice),
        (match json::path2(choice, "function"@, "name"@) {
            Some(JsonV::Str(name)) => convert::is_function_typed(choice) && name.len() > 0 ==> request::chat_request(
                request::responses_request(body),
            ).get("tool_choice"@) == Some(
                JsonV::Object(
                    seq![
                        ("type"@, json::str_v("function"@)),
                        ("function"@, JsonV::Object(seq![("name"@, json::str_v(name))])),
                    ],
                ),
            ),
            _ => true,
        }),
{
    law_responses_request_members(body);
    law_chat_request_members(request::responses_request(body));
    match json::path2(choice, "function"@, "name"@) {
        Some(JsonV::Str(name)) => {
            if convert::is_function_typed(choice) && name.len() > 0 {
                law_tool_choice_round_trip(choice, name);
            }
        },
        _ => {},
    }
}

/// Whether `j` is an object whose every key is in `ks`.
pub open spec fn keys_within(j: JsonV, ks: Set<Seq<char>>) -> bool {
    match j {
        JsonV::Object(es) => forall|i: int| 0 <= i < es.len() ==> ks.contains(#[trigger] es[i].0),
        _ => false,
    }
}

proof fn lemma_push_some_within(
    es: Seq<(Seq<char>, JsonV)>,
    k: Seq<char>,
    o: Option<JsonV>,
    ks: Set<Seq<char>>,
)
    requires
        forall|i: int| 0 <= i < es.len() ==> ks.contains(#[trigger] es[i].0),
        ks.contains(k),
    ensures
        forall|i: int| 0 <= i < json::push_some(es, k, o).len() ==> ks.contains(
            #[trigger] json::push_some(es, k, o)[i].0,
        ),
{
    match o {
        Some(v) => {
            assert forall|i: int| 0 <= i < es.push((k, v)).len() implies ks.contains(
                #[trigger] es.push((k, v))[i].0,
            ) by {
                if i < es.len() {
                    assert(es.push((k, v))[i] == es[i]);
                }
            }
        },
        None => {},
    }
}

/// The keys of the Chat request for a Responses request.
pub open spec fn chat_request_keys() -> Set<Seq<char>> {
    set![
        "model"@, "stream"@, "temperature"@, "top_p"@, "max_tokens"@, "reasoning_effort"@,
        "tool_choice"@, "tools"@, "messages"@,
    ]
}

/// The keys of the Responses request for a Chat request.
pub open spec fn responses_request_keys() -> Set<Seq<char>> {
    set![
        "model"@, "stream"@, "temperature"@, "top_p"@, "max_output_tokens"@, "reasoning"@,
        "tool_choice"@, "tools"@, "instructions"@, "input"@,
    ]
}

/// A converted request has no members but those of its kind: the Chat
/// request only `model`, `stream`, `temperature`, `top_p`, `max_tokens`,
/// `reasoning_effort`, `tool_choice`, `tools` and `messages` (always
/// present, an array); the Responses request only `model`, `stream`,
/// `temperature`, `top_p`, `max_output_tokens`, `reasoning`, `tool_choice`,
/// `tools`, `instructions` and `input` (always present, an array).
pub proof fn law_request_keys(body: JsonV)
    ensures
        keys_within(request::chat_request(body), chat_request_keys()),
        keys_within(request::responses_request(body), responses_request_keys()),
        request::chat_request(body).get("messages"@) matches Some(JsonV::Array(_)),
        request::responses_request(body).get("input"@) matches Some(JsonV::Array(_)),
{
    let ks = chat_request_keys();
    let es0 = Seq::<(Seq<char>, JsonV)>::empty();
    let es1 = json::push_some(es0, "model"@, body.get("model"@));
    lemma_push_some_within(es0, "model"@, body.get("model"@), ks);
    let es2 = json::push_some(es1, "stream"@, body.get("stream"@));
    lemma_push_some_within(es1, "stream"@, body.get("stream"@), ks);
    let es3 = json::push_some(es2, "temperature"@, body.get("temperature"@));
    lemma_push_some_within(es2, "temperature"@, body.get("temperature"@), ks);
    let es4 = json::push_some(es3, "top_p"@, body.get("top_p"@));
    lemma_push_some_within(es3, "top_p"@, body.get("top_p"@), ks);
    let es5 = json::push_some(es4, "max_tokens"@, body.get("max_output_tokens"@));
    lemma_push_some_within(es4, "max_tokens"@, body.get("max_output_tokens"@), ks);
    let re = json::path2(body, "reasoning"@, "effort"@);
    let es6 = json::push_some(es5, "reasoning_effort"@, re);
    lemma_push_some_within(es5, "reasoning_effort"@, re, ks);
    let tc = match body.get("tool_choice"@) {
        Some(tc) => convert::chat_tool_choice(tc),
        None => None,
    };
    let es7 = json::push_some(es6, "tool_choice"@, tc);
    lemma_push_some_within(es6, "tool_choice"@, tc, ks);
    let ts = match body.get("tools"@) {
        Some(t) => Some(convert::chat_tools(t)),
        None => None,
    };
    let es8 = json::push_some(es7, "tools"@, ts);
    lemma_push_some_within(es7, "tools"@, ts, ks);
    let ms = JsonV::Array(request::chat_messages(body));
    lemma_push_some_within(es8, "messages"@, Some(ms), ks);
    assert(request::chat_request(body) == JsonV::Object(json::push_some(es8, "messages"@, Some(ms))));
    law_chat_request_members(body);
    let kr = responses_request_keys();
    let rs1 = json::push_some(es0, "model"@, body.get("model"@));
    lemma_push_some_within(es0, "model"@, body.get("model"@), kr);
    let rs2 = json::push_some(rs1, "stream"@, body.get("stream"@));
    lemma_push_some_within(rs1, "stream"@, body.get("stream"@), kr);
    let rs3 = json::push_some(rs2, "temperature"@, body.get("temperature"@));
    lemma_push_some_within(rs2, "temperature"@, body.get("temperature"@), kr);
    let rs4 = json::push_some(rs3, "top_p"@, body.get("top_p"@));
    lemma_push_some_within(rs3, "top_p"@, body.get("top_p"@), kr);
    let max = match body.get("max_completion_tokens"@) {
        Some(v) => Some(v),
        None => body.get("max_tokens"@),
    };
    let rs5 = json::push_some(rs4, "max_output_tokens"@, max);
    lemma_push_some_within(rs4, "max_output_tokens"@, max, kr);
    let rr = match body.get("reasoning_effort"@) {
        Some(re) => Some(JsonV::Object(seq![("effort"@, re)])),
        None => None,
    };
    let rs6 = json::push_some(rs5, "reasoning"@, rr);
    lemma_push_some_within(rs5, "reasoning"@, rr, kr);
    let rtc = match body.get("tool_choice"@) {
        Some(tc) => Some(convert::responses_tool_choice(tc)),
        None => None,
    };
    let rs7 = json::push_some(rs6, "tool_choice"@, rtc);
    lemma_push_some_within(rs6, "tool_choice"@, rtc, kr);
    let rts = match body.get("tools"@) {
        Some(t) => Some(convert::responses_tools(t)),
        None => None,
    };
    let rs8 = json::push_some(rs7, "tools"@, rts);
    lemma_push_some_within(rs7, "tools"@, rts, kr);
    let texts = request::system_texts(request::message_list(body));
    let ins = if texts.len() > 0 {
        Some(json::str_v(request::join_lines(texts)))
    } else {
        None
    };
    let rs9 = json::push_some(rs8, "instructions"@, ins);
    lemma_push_some_within(rs8, "instructions"@, ins, kr);
    let inp = JsonV::Array(request::non_system_messages(request::message_list(body)));
    lemma_push_some_within(rs9, "input"@, Some(inp), kr);
    assert(request::responses_request(body) == JsonV::Object(json::push_some(rs9, "input"@, Some(inp))));
    law_responses_request_members(body);
}

/// The Chat request for a Responses request `rq` takes its `model`,
/// `stream`, `temperature` and `top_p` as they are, its `max_output_tokens`
/// as `max_tokens`, its `reasoning.effort` as `reasoning_effort`, its tool
/// choice and tools converted, and its messages; it has no
/// `max_completion_tokens`.
pub proof fn law_chat_request_members(rq: JsonV)
    ensures
        request::chat_request(rq).get("max_completion_tokens"@) is None,
        request::chat_request(rq).get("messages"@) == Some(JsonV::Array(request::chat_messages(rq))),
        request::chat_request(rq).get("model"@) == rq.get("model"@),
        request::chat_request(rq).get("stream"@) == rq.get("stream"@),
        request::chat_request(rq).get("temperature"@) == rq.get("temperature"@),
        request::chat_request(rq).get("top_p"@) == rq.get("top_p"@),
        request::chat_request(rq).get("max_tokens"@) == rq.get("max_output_tokens"@),
        request::chat_request(rq).get("reasoning_effort"@) == json::path2(rq, "reasoning"@, "effort"@),
        request::chat_request(rq).get("tool_choice"@) == (match rq.get("tool_choice"@) {
            Some(tc) => convert::chat_tool_choice(tc),
            None => None,
        }),
        request::chat_request(rq).get("tools"@) == (match rq.get("tools"@) {
            Some(t) => Some(convert::chat_tools(t)),
            None => None,
        }),
{
    broadcast use json::lemma_lookup_push_some;

    reveal_strlit("model");
    reveal_strlit("stream");
    reveal_strlit("temperature");
    reveal_strlit("top_p");
    reveal_strlit("max_tokens");
    reveal_strlit("reasoning_effort");
    reveal_strlit("tool_choice");
    reveal_strlit("tools");
    reveal_strlit("messages");
    reveal_strlit("max_completion_tokens");
    let es0 = Seq::<(Seq<char>, JsonV)>::empty();
    let es1 = json::push_some(es0, "model"@, rq.get("model"@));
    let es2 = json::push_some(es1, "stream"@, rq.get("stream"@));
    let es3 = json::push_some(es2, "temperature"@, rq.get("temperature"@));
    let es4 = json::push_some(es3, "top_p"@, rq.get("top_p"@));
    let es5 = json::push_some(es4, "max_tokens"@, rq.get("max_output_tokens"@));
    let es6 = json::push_some(es5, "reasoning_effort"@, json::path2(rq, "reasoning"@, "effort"@));
    let tc = match rq.get("tool_choice"@) {
        Some(tc) => convert::chat_tool_choice(tc),
        None => None,
    };
    let es7 = json::push_some(es6, "tool_choice"@, tc);
    let ts = match rq.get("tools"@) {
        Some(t) => Some(convert::chat_tools(t)),
        None => None,
    };
    let es8 = json::push_some(es7, "tools"@, ts);
    let ms = JsonV::Array(request::chat_messages(rq));
    assert(request::chat_request(rq) == JsonV::Object(es8.push(("messages"@, ms))));
    assert("model"@[0] != "stream"@[0]);
    assert("model"@[0] != "temperature"@[0]);
    assert("model"@[0] != "top_p"@[0]);
    assert("model"@[1] != "max_tokens"@[1]);
    assert("model"@[0] != "reasoning_effort"@[0]);
    assert("model"@[0] != "tool_choice"@[0]);
    assert("model"@[0] != "tools"@[0]);
    assert("model"@[1] != "messages"@[1]);
    assert("stream"@[0] != "temperature"@[0]);
    assert("stream"@[0] != "top_p"@[0]);
    assert("stream"@[0] != "max_tokens"@[0]);
    assert("stream"@[0] != "reasoning_effort"@[0]);
    assert("stream"@[0] != "tool_choice"@[0]);
    assert("stream"@[0] != "tools"@[0]);
    assert("stream"@[0] != "messages"@[0]);
    assert("temperature"@[1] != "top_p"@[1]);
    assert("temperature"@[0] != "max_tokens"@[0]);
    assert("temperature"@[0] != "reasoning_effort"@[0]);
    assert("temperature"@[1] != "tool_choice"@[1]);
    assert("temperature"@[1] != "tools"@[1]);
    assert("temperature"@[0] != "messages"@[0]);
    assert("top_p"@[0] != "max_tokens"@[0]);
    assert("top_p"@[0] != "reasoning_effort"@[0]);
    assert("top_p"@[2] != "tool_choice"@[2]);
    assert("top_p"@[2] != "tools"@[2]);
    assert("top_p"@[0] != "messages"@[0]);
    assert("max_tokens"@[0] != "reasoning_effort"@[0]);
    assert("max_tokens"@[0] != "tool_choice"@[0]);
    assert("max_tokens"@[0] != "tools"@[0]);
    assert("max_tokens"@[1] != "messages"@[1]);
    assert("reasoning_effort"@[0] != "tool_choice"@[0]);
    assert("reasoning_effort"@[0] != "tools"@[0]);
    assert("reasoning_effort"@[0] != "messages"@[0]);
    json::lemma_lookup_push(es8, "messages"@, ms, "model"@);
    json::lemma_lookup_push(es8, "messages"@, ms, "stream"@);
    json::lemma_lookup_push(es8, "messages"@, ms, "temperature"@);
    json::lemma_lookup_push(es8, "messages"@, ms, "top_p"@);
    json::lemma_lookup_push(es8, "messages"@, ms, "max_tokens"@);
    json::lemma_lookup_push(es8, "messages"@, ms, "reasoning_effort"@);
    json::lemma_lookup_push(es8, "messages"@, ms, "messages"@);
    assert("max_completion_tokens"@[1] != "model"@[1]);
    assert("max_completion_tokens"@[0] != "stream"@[0]);
    assert("max_completion_tokens"@[0] != "temperature"@[0]);
    assert("max_completion_tokens"@[0] != "top_p"@[0]);
    assert("max_completion_tokens"@[4] != "max_tokens"@[4]);
    assert("max_completion_tokens"@[0] != "reasoning_effort"@[0]);
    assert("max_completion_tokens"@[0] != "tool_choice"@[0]);
    assert("max_completion_tokens"@[0] != "tools"@[0]);
    assert("max_completion_tokens"@[1] != "messages"@[1]);
    json::lemma_lookup_push(es8, "messages"@, ms, "max_completion_tokens"@);
    assert("messages"@[0] != "stream"@[0]);
    assert("messages"@[0] != "temperature"@[0]);
    assert("messages"@[0] != "top_p"@[0]);
    assert("messages"@[0] != "reasoning_effort"@[0]);
    assert("messages"@[0] != "tool_choice"@[0]);
    assert("messages"@[0] != "tools"@[0]);
    assert("tool_choice"@.len() != "tools"@.len());
    json::lemma_lookup_push(es8, "messages"@, ms, "tool_choice"@);
    json::lemma_lookup_push(es8, "messages"@, ms, "tools"@);
}


/// A Responses request keeps its model, sampling settings, output token
/// limit and reasoning effort through a trip through the Chat form; with a
/// string `input`, its string `instructions` come back as `instructions` and
/// the input as one `user` message.
pub proof fn law_responses_request_round_trip(body: JsonV)
    ensures
        request::responses_request(request::chat_request(body)).get("model"@) == body.get(
            "model"@,
        ),
        request::responses_request(request::chat_request(body)).get("stream"@) == body.get(
            "stream"@,
        ),
        request::responses_request(request::chat_request(body)).get("temperature"@) == body.get(
            "temperature"@,
        ),
        request::responses_request(request::chat_request(body)).get("top_p"@) == body.get(
            "top_p"@,
        ),
        request::responses_request(request::chat_request(body)).get("max_output_tokens"@)
            == body.get("max_output_tokens"@),
        json::path2(request::responses_request(request::chat_request(body)), "reasoning"@, "effort"@)
            == json::path2(body, "reasoning"@, "effort"@),
{
    let rc = request::chat_request(body);
    law_chat_request_members(body);
    law_responses_request_members(rc);
}

/// A Responses request with string `instructions` and a string `input` gets
/// both back from a trip through the Chat form: the instructions as
/// `instructions`, the input as one `user` message.
pub proof fn law_responses_instructions_round_trip(body: JsonV, i: Seq<char>, s: Seq<char>)
    requires
        json::get_str(body, "instructions"@) == Some(i),
        body.get("input"@) == Some(JsonV::Str(s)),
    ensures
        json::get_str(request::responses_request(request::chat_request(body)), "instructions"@)
            == Some(i),
        request::responses_request(request::chat_request(body)).get("input"@) == Some(
            JsonV::Array(
                seq![
                    JsonV::Object(seq![("role"@, json::str_v("user"@)), ("content"@, json::str_v(s))]),
                ],
            ),
        ),
{
    let rc = request::chat_request(body);
    law_chat_request_members(body);
    law_responses_request_members(rc);
    reveal_strlit("role");
    reveal_strlit("content");
    reveal_strlit("system");
    reveal_strlit("user");
    reveal_with_fuel(json::lookup, 3);
    let sys = JsonV::Object(seq![("role"@, json::str_v("system"@)), ("content"@, json::str_v(i))]);
    let usr = JsonV::Object(seq![("role"@, json::str_v("user"@)), ("content"@, json::str_v(s))]);
    let msgs = request::chat_messages(body);
    assert(msgs =~= seq![sys, usr]);
    assert(request::message_list(rc) == msgs);
    assert("role"@[0] != "content"@[0]);
    assert(request::is_system_message(sys));
    assert("user"@[0] != "system"@[0]);
    assert(!request::is_system_message(usr));
    assert(json::get_str(sys, "content"@) == Some(i));
    let m1 = msgs.drop_last();
    assert(m1 =~= seq![sys]);
    assert(m1.last() == sys);
    assert(m1.drop_last().len() == 0);
    assert(request::system_texts(m1.drop_last()) == Seq::<Seq<char>>::empty());
    assert(request::non_system_messages(m1.drop_last()) == Seq::<JsonV>::empty());
    assert(request::system_texts(m1) =~= seq![i]);
    assert(request::system_texts(msgs) =~= seq![i]);
    assert(request::join_lines(seq![i]) == i);
    assert(request::non_system_messages(msgs.drop_last()) =~= Seq::<JsonV>::empty());
    assert(request::non_system_messages(msgs) =~= seq![usr]);
}

/// The Responses request for a Chat request `body` takes its `model`,
/// `stream`, `temperature` and `top_p` as they are, its
/// `max_completion_tokens` (else `max_tokens`) as `max_output_tokens`, its
/// `reasoning_effort` as `reasoning.effort`, its tool choice and tools
/// converted, the string contents of its `system` messages joined with
/// newlines as `instructions` (none where there are none), and its other
/// messages, unchanged and in order, as `input`.
#[verifier::rlimit(40)]
pub proof fn law_responses_request_members(body: JsonV)
    ensures
        request::responses_request(body).get("model"@) == body.get("model"@),
        request::responses_request(body).get("stream"@) == body.get("stream"@),
        request::responses_request(body).get("temperature"@) == body.get("temperature"@),
        request::responses_request(body).get("top_p"@) == body.get("top_p"@),
        request::responses_request(body).get("max_output_tokens"@) == (match body.get(
            "max_completion_tokens"@,
        ) {
            Some(v) => Some(v),
            None => body.get("max_tokens"@),
        }),
        json::path2(request::responses_request(body), "reasoning"@, "effort"@) == body.get(
            "reasoning_effort"@,
        ),
        json::get_str(request::responses_request(body), "instructions"@) == (if request::system_texts(
            request::message_list(body),
        ).len() > 0 {
            Some(request::join_lines(request::system_texts(request::message_list(body))))
        } else {
            None
        }),
        request::responses_request(body).get("input"@) == Some(
            JsonV::Array(request::non_system_messages(request::message_list(body))),
        ),
        request::responses_request(body).get("tool_choice"@) == (match body.get("tool_choice"@) {
            Some(tc) => Some(convert::responses_tool_choice(tc)),
            None => None,
        }),
        request::responses_request(body).get("tools"@) == (match body.get("tools"@) {
            Some(t) => Some(convert::responses_tools(t)),
            None => None,
        }),
        request::responses_request(body).get("reasoning"@) == (match body.get("reasoning_effort"@) {
            Some(re) => Some(JsonV::Object(seq![("effort"@, re)])),
            None => None,
        }),
{
    broadcast use json::lemma_lookup_push_some;

    reveal_strlit("model");
    reveal_strlit("stream");
    reveal_strlit("temperature");
    reveal_strlit("top_p");
    reveal_strlit("max_output_tokens");
    reveal_strlit("reasoning");
    reveal_strlit("effort");
    reveal_strlit("tool_choice");
    reveal_strlit("tools");
    reveal_strlit("instructions");
    reveal_strlit("input");
    let rq = request::responses_request(body);
    let es0 = Seq::<(Seq<char>, JsonV)>::empty();
    let es1 = json::push_some(es0, "model"@, body.get("model"@));
    let es2 = json::push_some(es1, "stream"@, body.get("stream"@));
    let es3 = json::push_some(es2, "temperature"@, body.get("temperature"@));
    let es4 = json::push_some(es3, "top_p"@, body.get("top_p"@));
    let max = match body.get("max_completion_tokens"@) {
        Some(v) => Some(v),
        None => body.get("max_tokens"@),
    };
    let es5 = json::push_some(es4, "max_output_tokens"@, max);
    let rs = match body.get("reasoning_effort"@) {
        Some(re) => Some(JsonV::Object(seq![("effort"@, re)])),
        None => None,
    };
    let es6 = json::push_some(es5, "reasoning"@, rs);
    let tc = match body.get("tool_choice"@) {
        Some(tc) => Some(convert::responses_tool_choice(tc)),
        None => None,
    };
    let es7 = json::push_some(es6, "tool_choice"@, tc);
    let ts = match body.get("tools"@) {
        Some(t) => Some(convert::responses_tools(t)),
        None => None,
    };
    let es8 = json::push_some(es7, "tools"@, ts);
    let texts = request::system_texts(request::message_list(body));
    let ins = if texts.len() > 0 {
        Some(json::str_v(request::join_lines(texts)))
    } else {
        None
    };
    let es9 = json::push_some(es8, "instructions"@, ins);
    let inp = JsonV::Array(request::non_system_messages(request::message_list(body)));
    assert(rq == JsonV::Object(es9.push(("input"@, inp))));
    assert("model"@[0] != "stream"@[0]);
    assert("model"@[0] != "temperature"@[0]);
    assert("model"@[0] != "top_p"@[0]);
    assert("model"@[1] != "max_output_tokens"@[1]);
    assert("model"@[0] != "reasoning"@[0]);
    assert("model"@[0] != "tool_choice"@[0]);
    assert("model"@[0] != "tools"@[0]);
    assert("model"@[0] != "instructions"@[0]);
    assert("model"@[0] != "input"@[0]);
    assert("stream"@[0] != "temperature"@[0]);
    assert("stream"@[0] != "top_p"@[0]);
    assert("stream"@[0] != "max_output_tokens"@[0]);
    assert("stream"@[0] != "reasoning"@[0]);
    assert("stream"@[0] != "tool_choice"@[0]);
    assert("stream"@[0] != "tools"@[0]);
    assert("stream"@[0] != "instructions"@[0]);
    assert("stream"@[0] != "input"@[0]);
    assert("temperature"@[1] != "top_p"@[1]);
    assert("temperature"@[0] != "max_output_tokens"@[0]);
    assert("temperature"@[0] != "reasoning"@[0]);
    assert("temperature"@[1] != "tool_choice"@[1]);
    assert("temperature"@[1] != "tools"@[1]);
    assert("temperature"@[0] != "instructions"@[0]);
    assert("temperature"@[0] != "input"@[0]);
    assert("top_p"@[0] != "max_output_tokens"@[0]);
    assert("top_p"@[0] != "reasoning"@[0]);
    assert("top_p"@[2] != "tool_choice"@[2]);
    assert("top_p"@[2] != "tools"@[2]);
    assert("top_p"@[0] != "instructions"@[0]);
    assert("top_p"@[0] != "input"@[0]);
    assert("max_output_tokens"@[0] != "reasoning"@[0]);
    assert("max_output_tokens"@[0] != "tool_choice"@[0]);
    assert("max_output_tokens"@[0] != "tools"@[0]);
    assert("max_output_tokens"@[0] != "instructions"@[0]);
    assert("max_output_tokens"@[0] != "input"@[0]);
    assert("reasoning"@[0] != "tool_choice"@[0]);
    assert("reasoning"@[0] != "tools"@[0]);
    assert("reasoning"@[0] != "instructions"@[0]);
    assert("reasoning"@[0] != "input"@[0]);
    assert("tool_choice"@[0] != "instructions"@[0]);
    assert("tool_choice"@[0] != "input"@[0]);
    assert("tools"@[0] != "instructions"@[0]);
    assert("tools"@[0] != "input"@[0]);
    assert("instructions"@[2] != "input"@[2]);
    assert("tool_choice"@.len() != "tools"@.len());
    json::lemma_lookup_push(es9, "input"@, inp, "model"@);
    json::lemma_lookup_push(es9, "input"@, inp, "stream"@);
    json::lemma_lookup_push(es9, "input"@, inp, "temperature"@);
    json::lemma_lookup_push(es9, "input"@, inp, "top_p"@);
    json::lemma_lookup_push(es9, "input"@, inp, "max_output_tokens"@);
    json::lemma_lookup_push(es9, "input"@, inp, "reasoning"@);
    json::lemma_lookup_push(es9, "input"@, inp, "instructions"@);
    json::lemma_lookup_push(es9, "input"@, inp, "input"@);
    json::lemma_lookup_push(es9, "input"@, inp, "tool_choice"@);
    json::lemma_lookup_push(es9, "input"@, inp, "tools"@);
    assert(rq.get("reasoning"@) == rs);
}


// ---------------------------------------------------------------------------
// The converted Chat-to-Responses stream
// ---------------------------------------------------------------------------

proof fn lemma_count_concat(a: Seq<FrameV>, b: Seq<FrameV>, name: Seq<char>)
    ensures
        stream::count_named(a + b, name) == stream::count_named(a, name) + stream::count_named(
            b,
            name,
        ),
    decreases b.len(),
{
    if b.len() == 0 {
        assert(a + b =~= a);
    } else {
        assert((a + b).drop_last() =~= a + b.drop_last());
        lemma_count_concat(a, b.drop_last(), name);
    }
}

proof fn lemma_count_one(f: FrameV, name: Seq<char>)
    ensures
        stream::count_named(seq![f], name) == match f {
            FrameV::Event { name: n, data: _ } => if n == name {
                1nat
            } else {
                0nat
            },
            _ => 0nat,
        },
{
    assert(seq![f].drop_last() =~= Seq::<FrameV>::empty());
    assert(stream::count_named(Seq::<FrameV>::empty(), name) == 0);
    assert(seq![f].last() == f);
}

proof fn lemma_count_two(f: FrameV, g: FrameV, name: Seq<char>)
    ensures
        stream::count_named(seq![f, g], name) == stream::count_named(seq![f], name)
            + stream::count_named(seq![g], name),
{
    assert(seq![f, g] =~= seq![f] + seq![g]);
    lemma_count_concat(seq![f], seq![g], name);
}

/// Distinct event names, told apart by one character.
proof fn lemma_event_names_distinct()
    ensures
        "response.output_item.added"@ != "response.created"@,
        "response.content_part.added"@ != "response.created"@,
        "response.output_text.delta"@ != "response.created"@,
        "response.function_call_arguments.delta"@ != "response.created"@,
        "response.content_part.done"@ != "response.created"@,
        "response.output_item.done"@ != "response.created"@,
        "response.completed"@ != "response.created"@,
        "response.output_item.added"@ != "response.completed"@,
        "response.content_part.added"@ != "response.completed"@,
        "response.output_text.delta"@ != "response.completed"@,
        "response.function_call_arguments.delta"@ != "response.completed"@,
        "response.content_part.done"@ != "response.completed"@,
        "response.output_item.done"@ != "response.completed"@,
        "response.created"@ != "response.completed"@,
{
    reveal_strlit("response.output_item.added");
    reveal_strlit("response.content_part.added");
    reveal_strlit("response.output_text.delta");
    reveal_strlit("response.function_call_arguments.delta");
    reveal_strlit("response.content_part.done");
    reveal_strlit("response.output_item.done");
    reveal_strlit("response.completed");
    reveal_strlit("response.created");
    assert("response.output_item.added"@[9] != "response.created"@[9]);
    assert("response.content_part.added"@[10] != "response.created"@[10]);
    assert("response.output_text.delta"@[9] != "response.created"@[9]);
    assert("response.function_call_arguments.delta"@[9] != "response.created"@[9]);
    assert("response.content_part.done"@[10] != "response.created"@[10]);
    assert("response.output_item.done"@[9] != "response.created"@[9]);
    assert("response.completed"@[10] != "response.created"@[10]);
    assert("response.output_item.added"@[9] != "response.completed"@[9]);
    assert("response.content_part.added"@[11] != "response.completed"@[11]);
    assert("response.output_text.delta"@[9] != "response.completed"@[9]);
    assert("response.function_call_arguments.delta"@[9] != "response.completed"@[9]);
    assert("response.content_part.done"@[11] != "response.completed"@[11]);
    assert("response.output_item.done"@[9] != "response.completed"@[9]);
}

/// The events of streamed tool calls include neither `response.created` nor
/// `response.completed`.
proof fn lemma_tool_call_frames_count(calls: Seq<stream::CallV>, ds: Seq<JsonV>)
    ensures
        stream::count_named(stream::chat_tool_calls(calls, ds).1, "response.created"@) == 0,
        stream::count_named(stream::chat_tool_calls(calls, ds).1, "response.completed"@) == 0,
    decreases ds.len(),
{
    lemma_event_names_distinct();
    if ds.len() > 0 {
        lemma_tool_call_frames_count(calls, ds.drop_last());
        let (c1, f1) = stream::chat_tool_calls(calls, ds.drop_last());
        let f = stream::chat_tool_call(c1, ds.last()).1;
        lemma_count_concat(f1, f, "response.created"@);
        lemma_count_concat(f1, f, "response.completed"@);
        if f.len() == 0 {
            assert(f =~= Seq::<FrameV>::empty());
        } else if f.len() == 1 {
            assert(f =~= seq![f[0]]);
            lemma_count_one(f[0], "response.created"@);
            lemma_count_one(f[0], "response.completed"@);
        } else {
            assert(f =~= seq![f[0], f[1]]);
            lemma_count_two(f[0], f[1], "response.created"@);
            lemma_count_two(f[0], f[1], "response.completed"@);
            lemma_count_one(f[0], "response.created"@);
            lemma_count_one(f[0], "response.completed"@);
            lemma_count_one(f[1], "response.created"@);
            lemma_count_one(f[1], "response.completed"@);
        }
    }
}

/// How the events of one chunk count: one `response.created` exactly when
/// the stream was not opened yet, and one `response.completed` exactly when
/// the chunk finishes.
proof fn lemma_chunk_counts(s: ChatStreamV, v: JsonV)
    ensures
        stream::count_named(stream::chat_chunk(s, v).1, "response.created"@) == (if s.created_sent {
            0nat
        } else {
            1nat
        }),
        stream::count_named(stream::chat_chunk(s, v).1, "response.completed"@) == (if stream::chunk_finish(
            v,
        ) is Some {
            1nat
        } else {
            0nat
        }),
        stream::chat_chunk(s, v).0.created_sent,
        stream::chat_chunk(s, v).0.completed_sent == (s.completed_sent || stream::chunk_finish(
            v,
        ) is Some),
        stream::chat_chunk(s, v).0.output_text == s.output_text + match json::get_str(
            stream::chunk_delta(v),
            "content"@,
        ) {
            Some(c) => c,
            None => seq![],
        },
{
    lemma_event_names_distinct();
    let (s2, f1) = stream::chat_chunk_open(s, v);
    let delta = stream::chunk_delta(v);
    let (s3, f2) = stream::chat_chunk_text(s2, delta);
    let (calls, f3) = match response::get_array(delta, "tool_calls"@) {
        Some(ds) => stream::chat_tool_calls(s3.calls, ds),
        None => (s3.calls, seq![]),
    };
    let s3c = ChatStreamV { calls, ..s3 };
    let (s4, f4) = stream::chat_chunk_finish(s3c, v);
    let created = "response.created"@;
    let completed = "response.completed"@;
    // the opening
    if !s.created_sent {
        lemma_count_one(f1[0], created);
        lemma_count_one(f1[0], completed);
        assert(f1 =~= seq![f1[0]]);
    } else {
        assert(f1 =~= Seq::<FrameV>::empty());
    }
    // the text
    match json::get_str(delta, "content"@) {
        Some(c) => {
            let d = seq![stream::text_delta_frame(c)];
            lemma_count_one(d[0], created);
            lemma_count_one(d[0], completed);
            if s2.text_item_sent {
                assert(f2 =~= d);
            } else {
                let o = stream::text_opened_frames();
                assert(o =~= seq![o[0], o[1]]);
                lemma_count_two(o[0], o[1], created);
                lemma_count_two(o[0], o[1], completed);
                lemma_count_one(o[0], created);
                lemma_count_one(o[0], completed);
                lemma_count_one(o[1], created);
                lemma_count_one(o[1], completed);
                lemma_count_concat(o, d, created);
                lemma_count_concat(o, d, completed);
            }
        },
        None => {
            assert(f2 =~= Seq::<FrameV>::empty());
        },
    }
    // the tool calls
    match response::get_array(delta, "tool_calls"@) {
        Some(ds) => lemma_tool_call_frames_count(s3.calls, ds),
        None => {
            assert(f3 =~= Seq::<FrameV>::empty());
        },
    }
    // the finish
    match stream::chunk_finish(v) {
        Some(fr) => {
            let close = s3.text_item_sent && !s3.text_done_sent;
            let last = f4.last();
            let cl = if close {
                stream::text_closed_frames(s3.output_text)
            } else {
                seq![]
            };
            assert(f4 =~= cl + seq![last]);
            lemma_count_one(last, created);
            lemma_count_one(last, completed);
            if close {
                assert(cl =~= seq![cl[0], cl[1]]);
                lemma_count_two(cl[0], cl[1], created);
                lemma_count_two(cl[0], cl[1], completed);
                lemma_count_one(cl[0], created);
                lemma_count_one(cl[0], completed);
                lemma_count_one(cl[1], created);
                lemma_count_one(cl[1], completed);
            } else {
                assert(cl =~= Seq::<FrameV>::empty());
            }
            lemma_count_concat(cl, seq![last], created);
            lemma_count_concat(cl, seq![last], completed);
        },
        None => {
            assert(f4 =~= Seq::<FrameV>::empty());
        },
    }
    lemma_count_concat(f1, f2, created);
    lemma_count_concat(f1, f2, completed);
    lemma_count_concat(f1 + f2, f3, created);
    lemma_count_concat(f1 + f2, f3, completed);
    lemma_count_concat(f1 + f2 + f3, f4, created);
    lemma_count_concat(f1 + f2 + f3, f4, completed);
}

/// How the events at the end marker count: no `response.created`, and one
/// `response.completed` exactly when none was sent before.
proof fn lemma_done_counts(s: ChatStreamV)
    ensures
        stream::count_named(stream::chat_done(s).1, "response.created"@) == 0,
        stream::count_named(stream::chat_done(s).1, "response.completed"@) == (if s.completed_sent {
            0nat
        } else {
            1nat
        }),
        stream::chat_done(s).0 == s,
{
    lemma_event_names_distinct();
    let f = stream::chat_done(s).1;
    lemma_count_one(FrameV::Done, "response.created"@);
    lemma_count_one(FrameV::Done, "response.completed"@);
    if s.completed_sent {
        assert(f =~= seq![FrameV::Done]);
    } else {
        assert(f =~= seq![f[0], FrameV::Done]);
        lemma_count_two(f[0], FrameV::Done, "response.created"@);
        lemma_count_two(f[0], FrameV::Done, "response.completed"@);
        lemma_count_one(f[0], "response.created"@);
        lemma_count_one(f[0], "response.completed"@);
    }
}

/// Over any run of the converted stream from its start: `response.created`
/// is sent at most once; once the state records a completion, a
/// `response.completed` has been sent; a run that met the end marker has sent
/// a `response.completed`; and the message text is the text of all chunks,
/// in order.
pub proof fn law_chat_stream_run(es: Seq<ChatStreamEvent>)
    ensures
        stream::count_named(stream::chat_run(stream::chat_stream_start(), es).1, "response.created"@)
            <= 1,
        stream::chat_run(stream::chat_stream_start(), es).0.completed_sent ==> stream::count_named(
            stream::chat_run(stream::chat_stream_start(), es).1,
            "response.completed"@,
        ) >= 1,
        es.contains(ChatStreamEvent::Done) ==> stream::count_named(
            stream::chat_run(stream::chat_stream_start(), es).1,
            "response.completed"@,
        ) >= 1,
        stream::chat_run(stream::chat_stream_start(), es).0.output_text == stream::streamed_text(es),
    decreases es.len(),
{
    let start = stream::chat_stream_start();
    let (s, f) = stream::chat_run(start, es);
    let created = "response.created"@;
    let completed = "response.completed"@;
    if es.len() == 0 {
        reveal_strlit("");
        assert(!es.contains(ChatStreamEvent::Done));
        assert(start.output_text =~= Seq::<char>::empty());
    } else {
        let prev = es.drop_last();
        law_chat_stream_run(prev);
        let (s1, f1) = stream::chat_run(start, prev);
        assert(stream::count_named(f1, created) == (if s1.created_sent { 1nat } else { 0nat })) by {
            lemma_created_flag(prev);
        }
        let (s2, f2) = stream::chat_step(s1, es.last());
        lemma_count_concat(f1, f2, created);
        lemma_count_concat(f1, f2, completed);
        match es.last() {
            ChatStreamEvent::Chunk(v) => {
                lemma_chunk_counts(s1, v);
            },
            ChatStreamEvent::Done => {
                lemma_done_counts(s1);
            },
        }
        if es.contains(ChatStreamEvent::Done) {
            if es.last() != ChatStreamEvent::Done {
                let k = choose|k: int| 0 <= k < es.len() && es[k] == ChatStreamEvent::Done;
                assert(prev[k] == ChatStreamEvent::Done);
                assert(prev.contains(ChatStreamEvent::Done));
            }
        }
    }
}

/// From the start, `response.created` has been sent once exactly when the
/// state says so.
proof fn lemma_created_flag(es: Seq<ChatStreamEvent>)
    ensures
        stream::count_named(stream::chat_run(stream::chat_stream_start(), es).1, "response.created"@)
            == (if stream::chat_run(stream::chat_stream_start(), es).0.created_sent {
            1nat
        } else {
            0nat
        }),
    decreases es.len(),
{
    if es.len() > 0 {
        let prev = es.drop_last();
        lemma_created_flag(prev);
        let (s1, f1) = stream::chat_run(stream::chat_stream_start(), prev);
        let (s2, f2) = stream::chat_step(s1, es.last());
        lemma_count_concat(f1, f2, "response.created"@);
        match es.last() {
            ChatStreamEvent::Chunk(v) => {
                lemma_chunk_counts(s1, v);
            },
            ChatStreamEvent::Done => {
                lemma_done_counts(s1);
            },
        }
    }
}

/// A run without the end marker sends one `response.completed` per chunk
/// with a `finish_reason`, and its state records a completion exactly when
/// there was one.
proof fn lemma_completions_without_done(es: Seq<ChatStreamEvent>)
    requires
        !es.contains(ChatStreamEvent::Done),
    ensures
        stream::count_named(stream::chat_run(stream::chat_stream_start(), es).1, "response.completed"@)
            == stream::finish_count(es),
        stream::chat_run(stream::chat_stream_start(), es).0.completed_sent == (stream::finish_count(es)
            > 0),
    decreases es.len(),
{
    if es.len() > 0 {
        let prev = es.drop_last();
        if prev.contains(ChatStreamEvent::Done) {
            let k = choose|k: int| 0 <= k < prev.len() && prev[k] == ChatStreamEvent::Done;
            assert(es[k] == ChatStreamEvent::Done);
        }
        lemma_completions_without_done(prev);
        let (s1, f1) = stream::chat_run(stream::chat_stream_start(), prev);
        let (s2, f2) = stream::chat_step(s1, es.last());
        lemma_count_concat(f1, f2, "response.completed"@);
        match es.last() {
            ChatStreamEvent::Chunk(v) => {
                lemma_chunk_counts(s1, v);
            },
            ChatStreamEvent::Done => {
                assert(es[es.len() - 1] == ChatStreamEvent::Done);
            },
        }
    }
}

/// On a Chat stream with at most one chunk that carries a `finish_reason`,
/// and the end marker at most as its last input, `response.completed` is
/// sent exactly once where a chunk finished or the stream ended, and never
/// otherwise.
pub proof fn law_chat_stream_completed_once(es: Seq<ChatStreamEvent>)
    requires
        stream::finish_count(es) <= 1,
        forall|i: int| 0 <= i < es.len() - 1 ==> es[i] != ChatStreamEvent::Done,
    ensures
        stream::count_named(stream::chat_run(stream::chat_stream_start(), es).1, "response.completed"@)
            == (if stream::finish_count(es) == 1 || (es.len() > 0 && es.last()
            == ChatStreamEvent::Done) {
            1nat
        } else {
            0nat
        }),
{
    if es.len() > 0 {
        let prev = es.drop_last();
        if prev.contains(ChatStreamEvent::Done) {
            let k = choose|k: int| 0 <= k < prev.len() && prev[k] == ChatStreamEvent::Done;
            assert(es[k] == ChatStreamEvent::Done);
        }
        lemma_completions_without_done(prev);
        let (s1, f1) = stream::chat_run(stream::chat_stream_start(), prev);
        let (s2, f2) = stream::chat_step(s1, es.last());
        lemma_count_concat(f1, f2, "response.completed"@);
        match es.last() {
            ChatStreamEvent::Chunk(v) => {
                lemma_chunk_counts(s1, v);
            },
            ChatStreamEvent::Done => {
                lemma_done_counts(s1);
            },
        }
    }
}

/// The arguments of the calls `cs`, one after another.
pub open spec fn joined_arguments(cs: Seq<stream::CallV>) -> Seq<char>
    decreases cs.len(),
{
    if cs.len() == 0 {
        seq![]
    } else {
        joined_arguments(cs.drop_last()) + cs.last().arguments
    }
}

/// The argument pieces of the tool call deltas `ds`, one after another.
pub open spec fn delta_arguments(ds: Seq<JsonV>) -> Seq<char>
    decreases ds.len(),
{
    if ds.len() == 0 {
        seq![]
    } else {
        delta_arguments(ds.drop_last()) + stream::call_function_str(ds.last(), "arguments"@)
    }
}

/// The argument pieces of the tool call deltas of the chunks among `es`.
pub open spec fn run_arguments(es: Seq<ChatStreamEvent>) -> Seq<char>
    decreases es.len(),
{
    if es.len() == 0 {
        seq![]
    } else {
        run_arguments(es.drop_last()) + match es.last() {
            ChatStreamEvent::Chunk(v) => match response::get_array(stream::chunk_delta(v), "tool_calls"@) {
                Some(ds) => delta_arguments(ds),
                None => seq![],
            },
            ChatStreamEvent::Done => seq![],
        }
    }
}

proof fn lemma_joined_push(cs: Seq<stream::CallV>, c: stream::CallV)
    ensures
        joined_arguments(cs.push(c)) == joined_arguments(cs) + c.arguments,
{
    assert(cs.push(c).drop_last() =~= cs);
}

/// Each tool call delta adds its argument piece to the arguments of the
/// recorded calls, whether it starts a call or goes on with the last one.
proof fn lemma_tool_call_arguments(cs: Seq<stream::CallV>, d: JsonV)
    ensures
        joined_arguments(stream::chat_tool_call(cs, d).0) == joined_arguments(cs)
            + stream::call_function_str(d, "arguments"@),
{
    let id = match json::get_str(d, "id"@) {
        Some(s) => s,
        None => ""@,
    };
    let name = stream::call_function_str(d, "name"@);
    let args = stream::call_function_str(d, "arguments"@);
    if id.len() == 0 && name.len() == 0 && args.len() == 0 {
        assert(joined_arguments(cs) + args =~= joined_arguments(cs));
    } else if stream::continues_call(cs, id) {
        let last = cs.last();
        let c = stream::CallV { arguments: last.arguments + args, ..last };
        lemma_joined_push(cs.drop_last(), c);
        assert(joined_arguments(cs) == joined_arguments(cs.drop_last()) + last.arguments);
        assert(joined_arguments(cs.drop_last()) + c.arguments =~= joined_arguments(cs) + args);
    } else {
        let c = stream::CallV {
            call_id: stream::or_default(id, "call_1"@),
            name: stream::or_default(name, "function"@),
            arguments: args,
        };
        lemma_joined_push(cs, c);
    }
}

proof fn lemma_tool_calls_arguments(cs: Seq<stream::CallV>, ds: Seq<JsonV>)
    ensures
        joined_arguments(stream::chat_tool_calls(cs, ds).0) == joined_arguments(cs) + delta_arguments(
            ds,
        ),
    decreases ds.len(),
{
    if ds.len() == 0 {
        assert(joined_arguments(cs) + delta_arguments(ds) =~= joined_arguments(cs));
    } else {
        lemma_tool_calls_arguments(cs, ds.drop_last());
        let c1 = stream::chat_tool_calls(cs, ds.drop_last()).0;
        lemma_tool_call_arguments(c1, ds.last());
        assert(joined_arguments(cs) + delta_arguments(ds.drop_last()) + stream::call_function_str(
            ds.last(),
            "arguments"@,
        ) =~= joined_arguments(cs) + delta_arguments(ds));
    }
}

/// Over any run of the converted stream from its start, no argument piece
/// of a streamed tool call is lost or repeated: the arguments of the
/// recorded function calls, which the completed response carries, are all
/// the argument pieces of the chunks, in order.
pub proof fn law_chat_stream_arguments(es: Seq<ChatStreamEvent>)
    ensures
        joined_arguments(stream::chat_run(stream::chat_stream_start(), es).0.calls) == run_arguments(
            es,
        ),
    decreases es.len(),
{
    if es.len() > 0 {
        let prev = es.drop_last();
        law_chat_stream_arguments(prev);
        let s1 = stream::chat_run(stream::chat_stream_start(), prev).0;
        match es.last() {
            ChatStreamEvent::Chunk(v) => {
                let delta = stream::chunk_delta(v);
                let s3 = stream::chat_chunk_text(stream::chat_chunk_open(s1, v).0, delta).0;
                assert(s3.calls == s1.calls);
                match response::get_array(delta, "tool_calls"@) {
                    Some(ds) => {
                        lemma_tool_calls_arguments(s1.calls, ds);
                    },
                    None => {
                        assert(run_arguments(prev) + Seq::<char>::empty() =~= run_arguments(prev));
                    },
                }
            },
            ChatStreamEvent::Done => {
                assert(run_arguments(prev) + Seq::<char>::empty() =~= run_arguments(prev));
            },
        }
    }
}

// ---------------------------------------------------------------------------
// The converted Responses-to-Chat stream
// ---------------------------------------------------------------------------

/// An added output item of a Responses stream becomes a Chat tool call
/// chunk exactly when the item is a function call; other items (such as a
/// message) give no chunk.
pub proof fn law_added_item_tool_call(v: JsonV)
    ensures
        stream::chat_stream_frame("response.output_item.added"@, v) is Some
            <==> stream::adds_function_call(v),
{
    reveal_strlit("response.output_item.added");
    reveal_strlit("response.output_text.delta");
    assert("response.output_item.added"@[16] != "response.output_text.delta"@[16]);
}

/// Whether some input among `es` is a chunk.
pub open spec fn has_chunk(es: Seq<ChatStreamEvent>) -> bool {
    exists|i: int| 0 <= i < es.len() && es[i] is Chunk
}

proof fn lemma_created_sent(es: Seq<ChatStreamEvent>)
    ensures
        stream::chat_run(stream::chat_stream_start(), es).0.created_sent == has_chunk(es),
    decreases es.len(),
{
    if es.len() > 0 {
        let prev = es.drop_last();
        lemma_created_sent(prev);
        let s1 = stream::chat_run(stream::chat_stream_start(), prev).0;
        if has_chunk(prev) {
            let k = choose|k: int| 0 <= k < prev.len() && prev[k] is Chunk;
            assert(es[k] is Chunk);
        }
        match es.last() {
            ChatStreamEvent::Chunk(v) => {
                lemma_chunk_counts(s1, v);
                assert(es[es.len() - 1] is Chunk);
            },
            ChatStreamEvent::Done => {
                lemma_done_counts(s1);
                if has_chunk(es) {
                    let k = choose|k: int| 0 <= k < es.len() && es[k] is Chunk;
                    assert(k != es.len() - 1);
                    assert(prev[k] is Chunk);
                }
            },
        }
    }
}

/// Over any run of the converted stream from its start, `response.created`
/// is sent exactly once when some block gave a chunk, and never otherwise.
pub proof fn law_chat_stream_created_once(es: Seq<ChatStreamEvent>)
    ensures
        stream::count_named(stream::chat_run(stream::chat_stream_start(), es).1, "response.created"@)
            == if has_chunk(es) {
            1nat
        } else {
            0nat
        },
{
    lemma_created_flag(es);
    lemma_created_sent(es);
}

/// A run over `a` then `b` is the run over `a`, then the run over `b` from
/// where it left off.
proof fn lemma_run_append(s: ChatStreamV, a: Seq<ChatStreamEvent>, b: Seq<ChatStreamEvent>)
    ensures
        stream::chat_run(s, a + b) == (
            stream::chat_run(stream::chat_run(s, a).0, b).0,
            stream::chat_run(s, a).1 + stream::chat_run(stream::chat_run(s, a).0, b).1,
        ),
    decreases b.len(),
{
    if b.len() == 0 {
        assert(a + b =~= a);
        assert(stream::chat_run(s, a).1 + Seq::<FrameV>::empty() =~= stream::chat_run(s, a).1);
    } else {
        lemma_run_append(s, a, b.drop_last());
        assert((a + b).drop_last() =~= a + b.drop_last());
        assert((a + b).last() == b.last());
        let (sa, fa) = stream::chat_run(s, a);
        let (sb, fb) = stream::chat_run(sa, b.drop_last());
        let (sc, fc) = stream::chat_step(sb, b.last());
        assert(fa + fb + fc =~= fa + (fb + fc));
    }
}

proof fn lemma_done_run(es: Seq<ChatStreamEvent>)
    requires
        forall|i: int| 0 <= i < es.len() ==> es[i] == ChatStreamEvent::Done,
    ensures
        stream::chat_run(stream::chat_stream_start(), es).0 == stream::chat_stream_start(),
    decreases es.len(),
{
    if es.len() > 0 {
        let prev = es.drop_last();
        assert forall|i: int| 0 <= i < prev.len() implies prev[i] == ChatStreamEvent::Done by {
            assert(prev[i] == es[i]);
        }
        lemma_done_run(prev);
        assert(es.last() == es[es.len() - 1]);
    }
}

/// `response.created` comes at the first chunk of the stream, before every
/// event that chunk or any later input gives, with the chunk's string `id`
/// and `model` (`resp_chat_stream` and `unknown` where it has none); it is
/// the only `response.created` of the stream.
pub proof fn law_chat_stream_created_first(
    prefix: Seq<ChatStreamEvent>,
    v: JsonV,
    rest: Seq<ChatStreamEvent>,
)
    requires
        forall|i: int| 0 <= i < prefix.len() ==> prefix[i] == ChatStreamEvent::Done,
    ensures
        stream::chat_run(stream::chat_stream_start(), prefix).1.len() < stream::chat_run(
            stream::chat_stream_start(),
            prefix + seq![ChatStreamEvent::Chunk(v)] + rest,
        ).1.len(),
        stream::chat_run(stream::chat_stream_start(), prefix + seq![ChatStreamEvent::Chunk(v)] + rest).1[stream::chat_run(
            stream::chat_stream_start(),
            prefix,
        ).1.len() as int] == stream::created_frame(
            ChatStreamV {
                response_id: match json::get_str(v, "id"@) {
                    Some(id) => id,
                    None => "resp_chat_stream"@,
                },
                model: match json::get_str(v, "model"@) {
                    Some(m) => m,
                    None => "unknown"@,
                },
                ..stream::chat_stream_start()
            },
        ),
        stream::count_named(
            stream::chat_run(stream::chat_stream_start(), prefix + seq![ChatStreamEvent::Chunk(v)] + rest).1,
            "response.created"@,
        ) == 1,
{
    let start = stream::chat_stream_start();
    let es1 = prefix + seq![ChatStreamEvent::Chunk(v)];
    let es = es1 + rest;
    lemma_done_run(prefix);
    assert(es1.drop_last() =~= prefix);
    assert(es1.last() == ChatStreamEvent::Chunk(v));
    let (s0, f0) = stream::chat_run(start, prefix);
    let fc = stream::chat_chunk(s0, v).1;
    assert(fc[0] == stream::chat_chunk_open(s0, v).1[0]);
    lemma_run_append(start, es1, rest);
    let tail = stream::chat_run(stream::chat_run(start, es1).0, rest).1;
    assert(stream::chat_run(start, es).1 == f0 + fc + tail);
    assert((f0 + fc + tail)[f0.len() as int] == fc[0]);
    assert(es[prefix.len() as int] == ChatStreamEvent::Chunk(v));
    law_chat_stream_created_once(es);
}

/// Whether an event belongs to the message text: the message item added,
/// its content part added, or a text delta.
#[verifier::opaque]
pub open spec fn is_text_event(f: FrameV) -> bool {
    match f {
        FrameV::Event { name, data } => name == "response.content_part.added"@ || name
            == "response.output_text.delta"@ || (name == "response.output_item.added"@ && match json::path2(
            data,
            "item"@,
            "type"@,
        ) {
            Some(t) => t.as_str() == Some("message"@),
            None => false,
        }),
        _ => false,
    }
}

/// The events among `fs` that belong to the message text, in order.
pub open spec fn text_events(fs: Seq<FrameV>) -> Seq<FrameV>
    decreases fs.len(),
{
    if fs.len() == 0 {
        seq![]
    } else {
        text_events(fs.drop_last()) + if is_text_event(fs.last()) {
            seq![fs.last()]
        } else {
            seq![]
        }
    }
}

/// The text pieces of the chunks among `es`, one per chunk that has one.
pub open spec fn content_pieces(es: Seq<ChatStreamEvent>) -> Seq<Seq<char>>
    decreases es.len(),
{
    if es.len() == 0 {
        seq![]
    } else {
        content_pieces(es.drop_last()) + match es.last() {
            ChatStreamEvent::Chunk(v) => match json::get_str(stream::chunk_delta(v), "content"@) {
                Some(c) => seq![c],
                None => seq![],
            },
            ChatStreamEvent::Done => seq![],
        }
    }
}

proof fn lemma_text_events_concat(a: Seq<FrameV>, b: Seq<FrameV>)
    ensures
        text_events(a + b) == text_events(a) + text_events(b),
    decreases b.len(),
{
    if b.len() == 0 {
        assert(a + b =~= a);
        assert(text_events(a) + text_events(b) =~= text_events(a));
    } else {
        assert((a + b).drop_last() =~= a + b.drop_last());
        lemma_text_events_concat(a, b.drop_last());
        assert(text_events(a) + text_events(b.drop_last()) + (if is_text_event(b.last()) {
            seq![b.last()]
        } else {
            seq![]
        }) =~= text_events(a) + text_events(b));
    }
}

proof fn lemma_text_events_one(f: FrameV)
    ensures
        text_events(seq![f]) == if is_text_event(f) {
            seq![f]
        } else {
            seq![]
        },
{
    assert(seq![f].drop_last() =~= Seq::<FrameV>::empty());
    assert(seq![f].last() == f);
    assert(text_events(Seq::<FrameV>::empty()) == Seq::<FrameV>::empty());
    assert(Seq::<FrameV>::empty() + (if is_text_event(f) {
        seq![f]
    } else {
        seq![]
    }) =~= if is_text_event(f) {
        seq![f]
    } else {
        seq![]
    });
}

proof fn lemma_text_events_two(f: FrameV, g: FrameV)
    ensures
        text_events(seq![f, g]) == text_events(seq![f]) + text_events(seq![g]),
{
    assert(seq![f, g] =~= seq![f] + seq![g]);
    lemma_text_events_concat(seq![f], seq![g]);
}

/// Which of the stream's event names and items belong to the message text.
proof fn lemma_text_event_kinds()
    ensures
        "response.created"@ != "response.content_part.added"@,
        "response.created"@ != "response.output_text.delta"@,
        "response.created"@ != "response.output_item.added"@,
        "response.completed"@ != "response.content_part.added"@,
        "response.completed"@ != "response.output_text.delta"@,
        "response.completed"@ != "response.output_item.added"@,
        "response.content_part.done"@ != "response.content_part.added"@,
        "response.content_part.done"@ != "response.output_text.delta"@,
        "response.content_part.done"@ != "response.output_item.added"@,
        "response.output_item.done"@ != "response.content_part.added"@,
        "response.output_item.done"@ != "response.output_text.delta"@,
        "response.output_item.done"@ != "response.output_item.added"@,
        "response.function_call_arguments.delta"@ != "response.content_part.added"@,
        "response.function_call_arguments.delta"@ != "response.output_text.delta"@,
        "response.function_call_arguments.delta"@ != "response.output_item.added"@,
        "function_call"@ != "message"@,
{
    reveal_strlit("response.created");
    reveal_strlit("response.completed");
    reveal_strlit("response.content_part.added");
    reveal_strlit("response.content_part.done");
    reveal_strlit("response.output_text.delta");
    reveal_strlit("response.output_item.added");
    reveal_strlit("response.output_item.done");
    reveal_strlit("response.function_call_arguments.delta");
    reveal_strlit("function_call");
    reveal_strlit("message");
    assert("response.created"@[10] != "response.content_part.added"@[10]);
    assert("response.created"@[9] != "response.output_text.delta"@[9]);
    assert("response.created"@[9] != "response.output_item.added"@[9]);
    assert("response.completed"@[11] != "response.content_part.added"@[11]);
    assert("response.completed"@[9] != "response.output_text.delta"@[9]);
    assert("response.completed"@[9] != "response.output_item.added"@[9]);
    assert("response.content_part.done"@[22] != "response.content_part.added"@[22]);
    assert("response.content_part.done"@[9] != "response.output_text.delta"@[9]);
    assert("response.content_part.done"@[9] != "response.output_item.added"@[9]);
    assert("response.output_item.done"@[9] != "response.content_part.added"@[9]);
    assert("response.output_item.done"@[16] != "response.output_text.delta"@[16]);
    assert("response.output_item.done"@[21] != "response.output_item.added"@[21]);
    assert("response.function_call_arguments.delta"@[9] != "response.content_part.added"@[9]);
    assert("response.function_call_arguments.delta"@[9] != "response.output_text.delta"@[9]);
    assert("response.function_call_arguments.delta"@[9] != "response.output_item.added"@[9]);
    assert("function_call"@[0] != "message"@[0]);
}

/// An event under a name other than those of the message text does not
/// belong to it.
proof fn lemma_not_text_by_name(f: FrameV)
    requires
        f matches FrameV::Event { name, data: _ } ==> name != "response.content_part.added"@ && name
            != "response.output_text.delta"@ && name != "response.output_item.added"@,
    ensures
        !is_text_event(f),
{
    reveal(is_text_event);
}

/// The opening pair and the text deltas belong to the message text; a
/// function call's added item does not.
proof fn lemma_text_event_facts(c: Seq<char>, id: Seq<char>, name: Seq<char>)
    ensures
        is_text_event(stream::text_opened_frames()[0]),
        is_text_event(stream::text_opened_frames()[1]),
        is_text_event(stream::text_delta_frame(c)),
        !is_text_event(stream::call_added_frame(id, name)),
{
    reveal(is_text_event);
    lemma_text_event_kinds();
    reveal_strlit("type");
    reveal_strlit("item");
    reveal_strlit("id");
    reveal_strlit("output_index");
    reveal_strlit("function_call");
    reveal_strlit("message");
    reveal_with_fuel(json::lookup, 3);
    assert("type"@[0] != "item"@[0]);
    assert("output_index"@[0] != "item"@[0]);
    assert("id"@[1] != "type"@[1]);
    let a = stream::call_added_frame(id, name)->data;
    assert(a.get("item"@) == Some(a->Object_0[1].1));
    assert(json::path2(a, "item"@, "type"@) == Some(json::str_v("function_call"@)));
    reveal_strlit("response.output_item.added");
    reveal_strlit("response.content_part.added");
    reveal_strlit("response.output_text.delta");
    assert("response.output_item.added"@[9] != "response.content_part.added"@[9]);
    assert("response.output_item.added"@[16] != "response.output_text.delta"@[16]);
    let o = stream::text_opened_frames()[0]->data;
    assert(o.get("item"@) == Some(o->Object_0[2].1));
    assert(json::path2(o, "item"@, "type"@) == Some(json::str_v("message"@)));
}

proof fn lemma_tool_calls_text_events(calls: Seq<stream::CallV>, ds: Seq<JsonV>)
    ensures
        text_events(stream::chat_tool_calls(calls, ds).1) == Seq::<FrameV>::empty(),
    decreases ds.len(),
{
    lemma_text_event_kinds();
    if ds.len() > 0 {
        lemma_tool_calls_text_events(calls, ds.drop_last());
        let (c1, f1) = stream::chat_tool_calls(calls, ds.drop_last());
        let f = stream::chat_tool_call(c1, ds.last()).1;
        lemma_text_events_concat(f1, f);
        let id = match json::get_str(ds.last(), "id"@) {
            Some(s) => s,
            None => ""@,
        };
        let name = stream::call_function_str(ds.last(), "name"@);
        let args = stream::call_function_str(ds.last(), "arguments"@);
        let af = stream::call_arguments_frames(args);
        if af.len() > 0 {
            lemma_not_text_by_name(af[0]);
            assert(af =~= seq![af[0]]);
            lemma_text_events_one(af[0]);
        } else {
            assert(af =~= Seq::<FrameV>::empty());
        }
        if id.len() == 0 && name.len() == 0 && args.len() == 0 {
            assert(f =~= Seq::<FrameV>::empty());
        } else if stream::continues_call(c1, id) {
        } else {
            let c = stream::CallV {
                call_id: stream::or_default(id, "call_1"@),
                name: stream::or_default(name, "function"@),
                arguments: args,
            };
            lemma_text_event_facts(seq![], c.call_id, c.name);
            lemma_text_events_one(stream::call_added_frame(c.call_id, c.name));
            lemma_text_events_concat(seq![stream::call_added_frame(c.call_id, c.name)], af);
        }
    }
}

/// How one chunk adds to the message text events: its text piece, if any,
/// after the opening pair where the message item was not opened yet.
proof fn lemma_chunk_text_events(s: ChatStreamV, v: JsonV)
    ensures
        text_events(stream::chat_chunk(s, v).1) == match json::get_str(stream::chunk_delta(v), "content"@) {
            Some(c) => (if s.text_item_sent {
                seq![]
            } else {
                stream::text_opened_frames()
            }) + seq![stream::text_delta_frame(c)],
            None => seq![],
        },
        stream::chat_chunk(s, v).0.text_item_sent == (s.text_item_sent || json::get_str(
            stream::chunk_delta(v),
            "content"@,
        ) is Some),
{
    lemma_text_event_kinds();
    let (s2, f1) = stream::chat_chunk_open(s, v);
    let delta = stream::chunk_delta(v);
    let (s3, f2) = stream::chat_chunk_text(s2, delta);
    let (calls, f3) = match response::get_array(delta, "tool_calls"@) {
        Some(ds) => stream::chat_tool_calls(s3.calls, ds),
        None => (s3.calls, seq![]),
    };
    let s3c = ChatStreamV { calls, ..s3 };
    let (s4, f4) = stream::chat_chunk_finish(s3c, v);
    // the opening
    if !s.created_sent {
        assert(f1 =~= seq![f1[0]]);
        lemma_not_text_by_name(f1[0]);
        lemma_text_events_one(f1[0]);
    } else {
        assert(f1 =~= Seq::<FrameV>::empty());
    }
    // the text
    match json::get_str(delta, "content"@) {
        Some(c) => {
            let d = seq![stream::text_delta_frame(c)];
            lemma_text_event_facts(c, seq![], seq![]);
            lemma_text_events_one(d[0]);
            if s2.text_item_sent {
                assert(f2 =~= d);
            } else {
                let o = stream::text_opened_frames();
                assert(o =~= seq![o[0], o[1]]);
                lemma_text_events_two(o[0], o[1]);
                lemma_text_events_one(o[0]);
                lemma_text_events_one(o[1]);
                lemma_text_events_concat(o, d);
            }
        },
        None => {
            assert(f2 =~= Seq::<FrameV>::empty());
        },
    }
    // the tool calls
    match response::get_array(delta, "tool_calls"@) {
        Some(ds) => lemma_tool_calls_text_events(s3.calls, ds),
        None => {
            assert(f3 =~= Seq::<FrameV>::empty());
        },
    }
    // the finish
    match stream::chunk_finish(v) {
        Some(fr) => {
            let close = s3c.text_item_sent && !s3c.text_done_sent;
            let last = f4.last();
            let cl = if close {
                stream::text_closed_frames(s3c.output_text)
            } else {
                seq![]
            };
            assert(f4 =~= cl + seq![last]);
            lemma_not_text_by_name(last);
            lemma_text_events_one(last);
            if close {
                assert(cl =~= seq![cl[0], cl[1]]);
                lemma_not_text_by_name(cl[0]);
                lemma_not_text_by_name(cl[1]);
                lemma_text_events_two(cl[0], cl[1]);
                lemma_text_events_one(cl[0]);
                lemma_text_events_one(cl[1]);
            } else {
                assert(cl =~= Seq::<FrameV>::empty());
            }
            lemma_text_events_concat(cl, seq![last]);
        },
        None => {
            assert(f4 =~= Seq::<FrameV>::empty());
        },
    }
    lemma_text_events_concat(f1, f2);
    lemma_text_events_concat(f1 + f2, f3);
    lemma_text_events_concat(f1 + f2 + f3, f4);
    assert(stream::chat_chunk(s, v).1 == f1 + f2 + f3 + f4);
    assert(text_events(f2) == f2);
}

proof fn lemma_done_text_events(s: ChatStreamV)
    ensures
        text_events(stream::chat_done(s).1) == Seq::<FrameV>::empty(),
{
    lemma_text_event_kinds();
    let f = stream::chat_done(s).1;
    lemma_not_text_by_name(FrameV::Done);
    lemma_text_events_one(FrameV::Done);
    if s.completed_sent {
        assert(f =~= seq![FrameV::Done]);
    } else {
        assert(f =~= seq![f[0], FrameV::Done]);
        lemma_not_text_by_name(f[0]);
        lemma_text_events_two(f[0], FrameV::Done);
        lemma_text_events_one(f[0]);
    }
}

/// Over any run of the converted stream from its start, the events of the
/// message text are one opening pair (the message item, then its content
/// part), sent once and only where some chunk carried text, then exactly
/// one text delta per chunk that carried text, in order.
pub proof fn law_chat_stream_text_events(es: Seq<ChatStreamEvent>)
    ensures
        text_events(stream::chat_run(stream::chat_stream_start(), es).1) == (if content_pieces(es).len()
            > 0 {
            stream::text_opened_frames()
        } else {
            seq![]
        }) + content_pieces(es).map_values(|c: Seq<char>| stream::text_delta_frame(c)),
        stream::chat_run(stream::chat_stream_start(), es).0.text_item_sent == (content_pieces(es).len()
            > 0),
    decreases es.len(),
{
    if es.len() == 0 {
        assert(Seq::<FrameV>::empty() + content_pieces(es).map_values(
            |c: Seq<char>| stream::text_delta_frame(c),
        ) =~= Seq::<FrameV>::empty());
    } else {
        let prev = es.drop_last();
        law_chat_stream_text_events(prev);
        let (s1, f1) = stream::chat_run(stream::chat_stream_start(), prev);
        let (s2, f2) = stream::chat_step(s1, es.last());
        lemma_text_events_concat(f1, f2);
        let p0 = content_pieces(prev);
        match es.last() {
            ChatStreamEvent::Chunk(v) => {
                lemma_chunk_text_events(s1, v);
                match json::get_str(stream::chunk_delta(v), "content"@) {
                    Some(c) => {
                        assert(content_pieces(es) == p0 + seq![c]);
                        assert((p0 + seq![c]).map_values(|c: Seq<char>| stream::text_delta_frame(c))
                            =~= p0.map_values(|c: Seq<char>| stream::text_delta_frame(c)).push(
                            stream::text_delta_frame(c),
                        ));
                        if p0.len() == 0 {
                            assert(p0.map_values(|c: Seq<char>| stream::text_delta_frame(c))
                                =~= Seq::<FrameV>::empty());
                        }
                        assert(text_events(f1 + f2) =~= (if content_pieces(es).len() > 0 {
                            stream::text_opened_frames()
                        } else {
                            seq![]
                        }) + content_pieces(es).map_values(|c: Seq<char>| stream::text_delta_frame(c)));
                    },
                    None => {
                        assert(content_pieces(es) =~= p0);
                        assert(text_events(f1 + f2) =~= text_events(f1));
                    },
                }
            },
            ChatStreamEvent::Done => {
                lemma_done_text_events(s1);
                assert(content_pieces(es) =~= p0);
                assert(text_events(f1 + f2) =~= text_events(f1));
            },
        }
    }
}

// ---------------------------------------------------------------------------
// Converted streams, however the upstream splits them
// ---------------------------------------------------------------------------

/// The bytes of the chunks `cs`, one after another.
pub open spec fn chunks_bytes(cs: Seq<Seq<u8>>) -> Seq<u8>
    decreases cs.len(),
{
    if cs.len() == 0 {
        seq![]
    } else {
        chunks_bytes(cs.drop_last()) + cs.last()
    }
}

/// What feeding the chunks `cs` of a Chat stream one after another to
/// `on_bytes`, from the start and an empty buffer, gives: the state, the
/// bytes left in the buffer and all event texts; `None` where a call gives
/// `None`.
pub open spec fn chat_chunks_run(cs: Seq<Seq<u8>>) -> Option<(ChatStreamV, Seq<u8>, Seq<Seq<char>>)>
    decreases cs.len(),
{
    if cs.len() == 0 {
        Some((stream::chat_stream_start(), seq![], seq![]))
    } else {
        match chat_chunks_run(cs.drop_last()) {
            Some((s, rest, out)) => match wire::chat_blocks_run(s, sse::blocks(rest + cs.last()).0) {
                Some((s2, ts)) => Some((s2, sse::blocks(rest + cs.last()).1, out + ts)),
                None => None,
            },
            None => None,
        }
    }
}

/// What feeding the chunks `cs` of a Responses stream one after another to
/// `responses_bytes_to_chat`, from an empty buffer, gives: the bytes left in
/// the buffer and all Chat chunk texts.
pub open spec fn responses_chunks_run(cs: Seq<Seq<u8>>) -> (Seq<u8>, Seq<Seq<char>>)
    decreases cs.len(),
{
    if cs.len() == 0 {
        (seq![], seq![])
    } else {
        let (rest, out) = responses_chunks_run(cs.drop_last());
        (
            sse::blocks(rest + cs.last()).1,
            out + wire::responses_blocks_text(sse::blocks(rest + cs.last()).0),
        )
    }
}

proof fn lemma_blocks_empty()
    ensures
        sse::blocks(Seq::<u8>::empty()) == (Seq::<Seq<u8>>::empty(), Seq::<u8>::empty()),
{
}

/// However the upstream splits a Chat stream into chunks, converting it
/// chunk by chunk gives what converting the whole stream at once gives: the
/// same event texts, the same state and the same incomplete rest (or, in
/// both, a token total beyond `i64`).
pub proof fn law_chat_stream_split(cs: Seq<Seq<u8>>)
    ensures
        chat_chunks_run(cs) == match wire::chat_blocks_run(
            stream::chat_stream_start(),
            sse::blocks(chunks_bytes(cs)).0,
        ) {
            Some((s, ts)) => Some((s, sse::blocks(chunks_bytes(cs)).1, ts)),
            None => None,
        },
    decreases cs.len(),
{
    let start = stream::chat_stream_start();
    if cs.len() == 0 {
        lemma_blocks_empty();
    } else {
        let dl = cs.drop_last();
        let c = cs.last();
        law_chat_stream_split(dl);
        let w = chunks_bytes(dl);
        sse::law_blocks_of_concatenation(w, c);
        let bw = sse::blocks(w);
        let b2 = sse::blocks(bw.1 + c);
        wire::lemma_chat_blocks_run_append(start, bw.0, b2.0);
    }
}

/// However the upstream splits a Responses stream into chunks, converting
/// it chunk by chunk gives the same Chat chunk texts, and leaves the same
/// incomplete rest, as converting the whole stream at once.
pub proof fn law_responses_stream_split(cs: Seq<Seq<u8>>)
    ensures
        responses_chunks_run(cs) == (
            sse::blocks(chunks_bytes(cs)).1,
            wire::responses_blocks_text(sse::blocks(chunks_bytes(cs)).0),
        ),
    decreases cs.len(),
{
    if cs.len() == 0 {
        lemma_blocks_empty();
        assert(wire::responses_blocks_text(Seq::<Seq<u8>>::empty()) == Seq::<Seq<char>>::empty());
    } else {
        let dl = cs.drop_last();
        let c = cs.last();
        law_responses_stream_split(dl);
        let w = chunks_bytes(dl);
        sse::law_blocks_of_concatenation(w, c);
        let bw = sse::blocks(w);
        let b2 = sse::blocks(bw.1 + c);
        wire::lemma_responses_blocks_text_append(bw.0, b2.0);
    }
}

// ---------------------------------------------------------------------------
// Token counts and call ids, stated over the input members themselves
// ---------------------------------------------------------------------------

/// The member `key` of `u` where it is an integer that fits in an `i64`,
/// else 0.
pub open spec fn i64_member(u: JsonV, key: Seq<char>) -> i64 {
    match u.get(key) {
        Some(x) => match x.as_i64() {
            Some(n) => n,
            None => 0,
        },
        None => 0,
    }
}

/// The member `key` of `u`, or the number 0 where it has none.
pub open spec fn member_or_zero(u: JsonV, key: Seq<char>) -> JsonV {
    match u.get(key) {
        Some(x) => x,
        None => json::int_v(0),
    }
}

/// Whether a Chat chunk's first choice has a string `finish_reason`.
pub open spec fn finishing_chunk(v: JsonV) -> bool {
    match v.get("choices"@) {
        Some(c) => match json::at_zero(c) {
            Some(ch) => match ch.get("finish_reason"@) {
                Some(f) => f.as_str() is Some,
                None => false,
            },
            None => false,
        },
        None => false,
    }
}

/// The `usage` of a Chat chunk, or `{}`.
pub open spec fn usage_of(v: JsonV) -> JsonV {
    match v.get("usage"@) {
        Some(u) => u,
        None => json::empty_object(),
    }
}

/// A `response.completed` event of a Responses stream becomes a Chat chunk
/// whose first choice finishes with `stop` and whose usage counts the
/// event's input tokens as prompt tokens and its output tokens as
/// completion tokens (0 where missing).
pub proof fn law_completed_event_usage(v: JsonV)
    ensures
        match stream::chat_stream_frame("response.completed"@, v) {
            Some(FrameV::Data(d)) => {
                let u = match json::path2(v, "response"@, "usage"@) {
                    Some(u) => u,
                    None => json::empty_object(),
                };
                &&& json::path2(d, "usage"@, "prompt_tokens"@) == Some(member_or_zero(u, "input_tokens"@))
                &&& json::path2(d, "usage"@, "completion_tokens"@) == Some(
                    member_or_zero(u, "output_tokens"@),
                )
                &&& match d.get("choices"@) {
                    Some(c) => match json::at_zero(c) {
                        Some(ch) => ch.get("finish_reason"@) == Some(json::str_v("stop"@)),
                        None => false,
                    },
                    None => false,
                }
            },
            _ => false,
        },
{
    reveal_strlit("response.completed");
    reveal_strlit("response.output_text.delta");
    reveal_strlit("response.output_item.added");
    reveal_strlit("response.function_call_arguments.delta");
    assert("response.completed"@[9] != "response.output_text.delta"@[9]);
    assert("response.completed"@[9] != "response.output_item.added"@[9]);
    assert("response.completed"@[9] != "response.function_call_arguments.delta"@[9]);
    reveal_strlit("id");
    reveal_strlit("object");
    reveal_strlit("choices");
    reveal_strlit("usage");
    reveal_strlit("index");
    reveal_strlit("delta");
    reveal_strlit("finish_reason");
    reveal_strlit("prompt_tokens");
    reveal_strlit("completion_tokens");
    reveal_with_fuel(json::lookup, 5);
    assert("id"@[0] != "usage"@[0]);
    assert("object"@[0] != "usage"@[0]);
    assert("choices"@[0] != "usage"@[0]);
    assert("id"@[0] != "choices"@[0]);
    assert("object"@[0] != "choices"@[0]);
    assert("index"@[0] != "finish_reason"@[0]);
    assert("delta"@[0] != "finish_reason"@[0]);
    assert("prompt_tokens"@[0] != "completion_tokens"@[0]);
}

/// When a Chat chunk finishes, the last event it gives is
/// `response.completed`, whose usage counts the chunk's prompt tokens as
/// input tokens and its completion tokens as output tokens (0 where missing
/// or not an `i64`), and, where it fits in an `i64`, their sum as the total.
pub proof fn law_finish_usage(s: ChatStreamV, v: JsonV)
    requires
        finishing_chunk(v),
    ensures
        stream::chat_chunk(s, v).1.len() > 0,
        match stream::chat_chunk(s, v).1.last() {
            FrameV::Event { name, data } => {
                let u = match data.get("response"@) {
                    Some(r) => r.get("usage"@),
                    None => None,
                };
                let a = i64_member(usage_of(v), "prompt_tokens"@);
                let b = i64_member(usage_of(v), "completion_tokens"@);
                &&& name == "response.completed"@
                &&& u is Some
                &&& u.unwrap().get("input_tokens"@) == Some(json::int_v(a))
                &&& u.unwrap().get("output_tokens"@) == Some(json::int_v(b))
                &&& (i64::MIN <= a + b <= i64::MAX ==> u.unwrap().get("total_tokens"@) == Some(
                    json::int_v((a + b) as i64),
                ))
            },
            _ => false,
        },
{
    let (s2, f1) = stream::chat_chunk_open(s, v);
    let delta = stream::chunk_delta(v);
    let (s3, f2) = stream::chat_chunk_text(s2, delta);
    let (calls, f3) = match response::get_array(delta, "tool_calls"@) {
        Some(ds) => stream::chat_tool_calls(s3.calls, ds),
        None => (s3.calls, seq![]),
    };
    let s3c = ChatStreamV { calls, ..s3 };
    let (s4, f4) = stream::chat_chunk_finish(s3c, v);
    assert(stream::chunk_finish(v) is Some);
    assert(stream::chat_chunk(s, v).1 == f1 + f2 + f3 + f4);
    assert((f1 + f2 + f3 + f4).last() == f4.last());
    reveal_strlit("type");
    reveal_strlit("response");
    reveal_strlit("id");
    reveal_strlit("object");
    reveal_strlit("model");
    reveal_strlit("status");
    reveal_strlit("output");
    reveal_strlit("usage");
    reveal_strlit("input_tokens");
    reveal_strlit("output_tokens");
    reveal_strlit("total_tokens");
    reveal_with_fuel(json::lookup, 7);
    assert("type"@[0] != "response"@[0]);
    assert("id"@[0] != "usage"@[0]);
    assert("object"@[0] != "usage"@[0]);
    assert("model"@[0] != "usage"@[0]);
    assert("status"@[0] != "usage"@[0]);
    assert("output"@[0] != "usage"@[0]);
    assert("input_tokens"@[0] != "output_tokens"@[0]);
    assert("input_tokens"@[0] != "total_tokens"@[0]);
    assert("output_tokens"@[0] != "total_tokens"@[0]);
    assert(stream::chunk_usage(v) == usage_of(v));
}

/// The member `key` of `u`, or `d` where it has none.
pub open spec fn member_or(u: JsonV, key: Seq<char>, d: JsonV) -> JsonV {
    match u.get(key) {
        Some(x) => x,
        None => d,
    }
}

/// Whether an item's `type` is the string `kind`.
pub open spec fn has_type(item: JsonV, kind: Seq<char>) -> bool {
    match item.get("type"@) {
        Some(t) => t.as_str() == Some(kind),
        None => false,
    }
}

/// The items of type `function_call`, in order.
pub open spec fn function_call_items(items: Seq<JsonV>) -> Seq<JsonV>
    decreases items.len(),
{
    if items.len() == 0 {
        seq![]
    } else if has_type(items.last(), "function_call"@) {
        function_call_items(items.drop_last()).push(items.last())
    } else {
        function_call_items(items.drop_last())
    }
}

/// What a Chat tool call made from a Responses function call item is: its
/// id the item's `call_id` (`call_1` where missing), whatever other members
/// the item has; type `function`; function name and arguments the item's
/// (`function` and `{}` where missing).
pub open spec fn is_tool_call_for(c: JsonV, item: JsonV) -> bool {
    &&& c.get("id"@) == Some(member_or(item, "call_id"@, json::str_v("call_1"@)))
    &&& c.get("type"@) == Some(json::str_v("function"@))
    &&& json::path2(c, "function"@, "name"@) == Some(member_or(item, "name"@, json::str_v("function"@)))
    &&& json::path2(c, "function"@, "arguments"@) == Some(
        member_or(item, "arguments"@, json::str_v("{}"@)),
    )
}

proof fn lemma_chat_tool_call_for(item: JsonV)
    ensures
        is_tool_call_for(response::chat_tool_call(item), item),
{
    reveal_strlit("id");
    reveal_strlit("type");
    reveal_strlit("function");
    reveal_strlit("name");
    reveal_strlit("arguments");
    reveal_with_fuel(json::lookup, 4);
    assert("id"@[0] != "type"@[0]);
    assert("id"@[0] != "function"@[0]);
    assert("type"@[0] != "function"@[0]);
    assert("name"@[0] != "arguments"@[0]);
}

proof fn lemma_output_tool_calls_for(items: Seq<JsonV>)
    ensures
        response::output_tool_calls(items).len() == function_call_items(items).len(),
        forall|k: int| 0 <= k < response::output_tool_calls(items).len() ==> is_tool_call_for(
            #[trigger] response::output_tool_calls(items)[k],
            function_call_items(items)[k],
        ),
    decreases items.len(),
{
    if items.len() > 0 {
        let prev = items.drop_last();
        lemma_output_tool_calls_for(prev);
        let last = items.last();
        assert(has_type(last, "function_call"@) == (json::get_str(last, "type"@) == Some(
            "function_call"@,
        )));
        if has_type(last, "function_call"@) {
            lemma_chat_tool_call_for(last);
            let o0 = response::output_tool_calls(prev);
            let o1 = response::output_tool_calls(items);
            let c0 = function_call_items(prev);
            let c1 = function_call_items(items);
            assert forall|k: int| 0 <= k < o1.len() implies is_tool_call_for(#[trigger] o1[k], c1[k]) by {
                if k < o0.len() {
                    assert(o1[k] == o0[k]);
                    assert(c1[k] == c0[k]);
                }
            }
        }
    }
}

/// The Chat response for a Responses response has, exactly when the output
/// has function call items, tool calls: one per such item, in order, each
/// with the item's `call_id` as its id (`call_1` where missing, whatever
/// other members such as `id` the item has) and the item's name and
/// arguments.
pub proof fn law_response_tool_call_ids(body: JsonV)
    ensures
        ({
            let items = match body.get("output"@) {
                Some(o) => match o.as_array() {
                    Some(a) => a,
                    None => seq![],
                },
                None => seq![],
            };
            let fc = function_call_items(items);
            let m = response::chat_response_message(body);
            &&& response::chat_response(body).get("choices"@) matches Some(JsonV::Array(cs)) && cs.len()
                == 1 && cs[0].get("message"@) == Some(m)
            &&& (fc.len() == 0 ==> m.get("tool_calls"@) is None)
            &&& (fc.len() > 0 ==> match m.get("tool_calls"@) {
                Some(JsonV::Array(calls)) => calls.len() == fc.len() && forall|k: int|
                    0 <= k < calls.len() ==> is_tool_call_for(#[trigger] calls[k], fc[k]),
                _ => false,
            })
        }),
{
    law_chat_response_message(body);
    lemma_output_tool_calls_for(response::output_items(body));
    reveal_strlit("index");
    reveal_strlit("message");
    reveal_with_fuel(json::lookup, 2);
    assert("index"@[0] != "message"@[0]);
}

/// A Responses input item of type `function_call` with a non-empty name
/// becomes one `assistant` message with one tool call, whose id is the
/// item's `call_id` (`call_1` where missing, whatever other members such as
/// `id` the item has), whose function name is the item's name and whose
/// arguments are the item's (`{}` where missing).
pub proof fn law_function_call_input_item(item: JsonV, name: Seq<char>)
    requires
        has_type(item, "function_call"@),
        item.get("name"@) == Some(json::str_v(name)),
        name.len() > 0,
    ensures
        request::input_item_messages(item).len() == 1,
        request::input_item_messages(item)[0].get("role"@) == Some(json::str_v("assistant"@)),
        request::input_item_messages(item)[0].get("tool_calls"@) matches Some(JsonV::Array(calls))
            && calls.len() == 1 && is_tool_call_for(calls[0], item),
{
    reveal_strlit("type");
    reveal_strlit("function_call_output");
    reveal_strlit("function_call");
    reveal_strlit("role");
    reveal_strlit("tool_calls");
    reveal_strlit("id");
    reveal_strlit("function");
    reveal_strlit("name");
    reveal_strlit("arguments");
    reveal_with_fuel(json::lookup, 4);
    assert("function_call_output"@.len() != "function_call"@.len());
    assert("role"@[0] != "tool_calls"@[0]);
    assert("id"@[0] != "type"@[0]);
    assert("id"@[0] != "function"@[0]);
    assert("type"@[0] != "function"@[0]);
    assert("name"@[0] != "arguments"@[0]);
    assert(json::get_str(item, "type"@) == Some("function_call"@));
    assert(json::get_str(item, "name"@) == Some(name));
}

/// A Responses request without string `instructions` whose input is one
/// function call item with a non-empty name gets one Chat message: an
/// `assistant` message with one tool call that carries the item's
/// `call_id`, name and arguments.
pub proof fn law_function_call_input_request(body: JsonV, item: JsonV, name: Seq<char>)
    requires
        json::get_str(body, "instructions"@) is None,
        body.get("input"@) == Some(JsonV::Array(seq![item])),
        has_type(item, "function_call"@),
        item.get("name"@) == Some(json::str_v(name)),
        name.len() > 0,
    ensures
        match request::chat_request(body).get("messages"@) {
            Some(JsonV::Array(ms)) => ms.len() == 1 && ms[0].get("role"@) == Some(
                json::str_v("assistant"@),
            ) && match ms[0].get("tool_calls"@) {
                Some(JsonV::Array(calls)) => calls.len() == 1 && is_tool_call_for(calls[0], item),
                _ => false,
            },
            _ => false,
        },
{
    law_messages_without_instructions(body);
    law_function_call_input_item(item, name);
    assert(seq![item].drop_last() =~= Seq::<JsonV>::empty());
    assert(seq![item].last() == item);
    assert(request::input_items_messages(Seq::<JsonV>::empty()) == Seq::<JsonV>::empty());
    assert(request::input_items_messages(seq![item]) =~= request::input_item_messages(item));
}

/// The messages whose `role` is not the string `system`, in order.
pub open spec fn messages_not_system(ms: Seq<JsonV>) -> Seq<JsonV>
    decreases ms.len(),
{
    if ms.len() == 0 {
        seq![]
    } else if ms.last().get("role"@) == Some(json::str_v("system"@)) {
        messages_not_system(ms.drop_last())
    } else {
        messages_not_system(ms.drop_last()).push(ms.last())
    }
}

proof fn lemma_non_system_messages(ms: Seq<JsonV>)
    ensures
        request::non_system_messages(ms) == messages_not_system(ms),
    decreases ms.len(),
{
    if ms.len() > 0 {
        lemma_non_system_messages(ms.drop_last());
        let last = ms.last();
        assert(request::is_system_message(last) == (last.get("role"@) == Some(json::str_v("system"@))));
    }
}

/// The Responses input of a Chat request is exactly its messages whose
/// `role` is not the string `system`, each unchanged and in order, whatever
/// their content (a string, `null`, an array, or none); without a
/// `messages` array it is empty.
pub proof fn law_responses_input(body: JsonV)
    ensures
        request::responses_request(body).get("input"@) == Some(
            JsonV::Array(
                messages_not_system(
                    match body.get("messages"@) {
                        Some(m) => match m.as_array() {
                            Some(a) => a,
                            None => seq![],
                        },
                        None => seq![],
                    },
                ),
            ),
        ),
{
    law_responses_request_members(body);
    lemma_non_system_messages(request::message_list(body));
}

/// The usage of the Chat response for a Responses response counts the
/// input tokens as prompt tokens and the output tokens as completion tokens
/// (0 where missing), and, where it fits in an `i64`, their sum as the
/// total; there is a usage exactly when the response has one.
pub proof fn law_chat_response_usage(body: JsonV)
    ensures
        match body.get("usage"@) {
            Some(u) => match response::chat_response(body).get("usage"@) {
                Some(x) => {
                    let a = i64_member(u, "input_tokens"@);
                    let b = i64_member(u, "output_tokens"@);
                    &&& x.get("prompt_tokens"@) == Some(member_or_zero(u, "input_tokens"@))
                    &&& x.get("completion_tokens"@) == Some(member_or_zero(u, "output_tokens"@))
                    &&& (i64::MIN <= a + b <= i64::MAX ==> x.get("total_tokens"@) == Some(
                        json::int_v((a + b) as i64),
                    ))
                },
                None => false,
            },
            None => response::chat_response(body).get("usage"@) is None,
        },
{
    reveal_strlit("id");
    reveal_strlit("object");
    reveal_strlit("model");
    reveal_strlit("choices");
    reveal_strlit("usage");
    reveal_strlit("prompt_tokens");
    reveal_strlit("completion_tokens");
    reveal_strlit("total_tokens");
    reveal_with_fuel(json::lookup, 5);
    assert("id"@[0] != "usage"@[0]);
    assert("object"@[0] != "usage"@[0]);
    assert("model"@[0] != "usage"@[0]);
    assert("choices"@[0] != "usage"@[0]);
    assert("prompt_tokens"@[0] != "completion_tokens"@[0]);
    assert("prompt_tokens"@[0] != "total_tokens"@[0]);
    assert("completion_tokens"@[0] != "total_tokens"@[0]);
}

/// The usage of the Responses response for a Chat response counts the
/// prompt tokens as input tokens and the completion tokens as output
/// tokens (0 where missing), with the cached prompt tokens (0 where
/// missing); there is a usage exactly when the response has one.
pub proof fn law_responses_response_usage(body: JsonV)
    ensures
        match body.get("usage"@) {
            Some(u) => match response::responses_response(body).get("usage"@) {
                Some(x) => {
                    &&& x.get("input_tokens"@) == Some(member_or_zero(u, "prompt_tokens"@))
                    &&& x.get("output_tokens"@) == Some(member_or_zero(u, "completion_tokens"@))
                    &&& json::path2(x, "input_tokens_details"@, "cached_tokens"@) == Some(
                        match json::path2(u, "prompt_tokens_details"@, "cached_tokens"@) {
                            Some(c) => c,
                            None => json::int_v(0),
                        },
                    )
                },
                None => false,
            },
            None => response::responses_response(body).get("usage"@) is None,
        },
{
    law_responses_response_members(body);
    reveal_strlit("input_tokens");
    reveal_strlit("output_tokens");
    reveal_strlit("input_tokens_details");
    reveal_strlit("cached_tokens");
    reveal_with_fuel(json::lookup, 4);
    assert("input_tokens"@[0] != "output_tokens"@[0]);
    assert("input_tokens"@.len() != "input_tokens_details"@.len());
    assert("output_tokens"@[0] != "input_tokens_details"@[0]);
}

/// What a Responses function call item made from a Chat tool call is: type
/// `function_call`, its `call_id` the call's `id` (`call_1` where missing),
/// its name and arguments the call's function's (`function` and `{}` where
/// missing).
pub open spec fn is_call_item_for(it: JsonV, call: JsonV) -> bool {
    &&& it.get("type"@) == Some(json::str_v("function_call"@))
    &&& it.get("call_id"@) == Some(member_or(call, "id"@, json::str_v("call_1"@)))
    &&& it.get("name"@) == Some(
        match json::path2(call, "function"@, "name"@) {
            Some(n) => n,
            None => json::str_v("function"@),
        },
    )
    &&& it.get("arguments"@) == Some(
        match json::path2(call, "function"@, "arguments"@) {
            Some(a) => a,
            None => json::str_v("{}"@),
        },
    )
}

/// The Responses output for a Chat response whose message has an array of
/// tool calls ends with one function call item per tool call, in order,
/// each carrying the call's id, name and arguments.
pub proof fn law_responses_output_calls(body: JsonV, calls: Seq<JsonV>)
    requires
        json::get_or(response::first_choice(body), "message"@, json::empty_object()).get(
            "tool_calls"@,
        ) == Some(JsonV::Array(calls)),
    ensures
        response::responses_output(body).len() >= calls.len(),
        forall|k: int| 0 <= k < calls.len() ==> is_call_item_for(
            #[trigger] response::responses_output(body)[response::responses_output(body).len() - calls.len()
                + k],
            calls[k],
        ),
{
    reveal_strlit("type");
    reveal_strlit("call_id");
    reveal_strlit("name");
    reveal_strlit("arguments");
    reveal_with_fuel(json::lookup, 4);
    assert("type"@[0] != "call_id"@[0]);
    assert("type"@[0] != "name"@[0]);
    assert("type"@[0] != "arguments"@[0]);
    assert("call_id"@[0] != "name"@[0]);
    assert("call_id"@[0] != "arguments"@[0]);
    assert("name"@[0] != "arguments"@[0]);
    let out = response::responses_output(body);
    let fcs = calls.map_values(|c: JsonV| response::function_call_item(c));
    let pre = out.len() - calls.len();
    assert(response::get_array(
        json::get_or(response::first_choice(body), "message"@, json::empty_object()),
        "tool_calls"@,
    ) == Some(calls));
    assert forall|k: int| 0 <= k < calls.len() implies is_call_item_for(
        #[trigger] out[out.len() - calls.len() + k],
        calls[k],
    ) by {
        assert(out[pre + k] == fcs[k]);
    }
}

/// A Responses input item of type `function_call_output` becomes one `tool`
/// message whose `tool_call_id` is the item's `call_id` and whose content
/// is the item's `output` (`""` where missing).
pub proof fn law_function_call_output_item(item: JsonV)
    requires
        has_type(item, "function_call_output"@),
    ensures
        request::input_item_messages(item).len() == 1,
        request::input_item_messages(item)[0].get("role"@) == Some(json::str_v("tool"@)),
        request::input_item_messages(item)[0].get("tool_call_id"@) == Some(
            member_or(item, "call_id"@, json::str_v(""@)),
        ),
        request::input_item_messages(item)[0].get("content"@) == Some(
            member_or(item, "output"@, json::str_v(""@)),
        ),
{
    reveal_strlit("role");
    reveal_strlit("tool_call_id");
    reveal_strlit("content");
    reveal_with_fuel(json::lookup, 3);
    assert("role"@[0] != "tool_call_id"@[0]);
    assert("role"@[0] != "content"@[0]);
    assert("tool_call_id"@[0] != "content"@[0]);
    assert(json::get_str(item, "type"@) == Some("function_call_output"@));
}

/// The `delta` of the first choice of a Chat chunk.
pub open spec fn first_delta(d: JsonV) -> Option<JsonV> {
    match d.get("choices"@) {
        Some(c) => match json::at_zero(c) {
            Some(ch) => ch.get("delta"@),
            None => None,
        },
        None => None,
    }
}

/// The first tool call of the `delta` of the first choice of a Chat chunk.
pub open spec fn first_delta_call(d: JsonV) -> Option<JsonV> {
    match first_delta(d) {
        Some(x) => match x.get("tool_calls"@) {
            Some(t) => json::at_zero(t),
            None => None,
        },
        None => None,
    }
}

proof fn lemma_chunk_keys()
    ensures
        "id"@ != "choices"@,
        "object"@ != "choices"@,
        "index"@ != "delta"@,
        "id"@ != "function"@,
        "type"@ != "function"@,
        "index"@ != "function"@,
        "index"@ != "id"@,
        "index"@ != "type"@,
        "id"@ != "type"@,
        "name"@ != "arguments"@,
        "response.output_text.delta"@ != "response.output_item.added"@,
        "response.output_text.delta"@ != "response.function_call_arguments.delta"@,
        "response.output_item.added"@ != "response.function_call_arguments.delta"@,
{
    reveal_strlit("id");
    reveal_strlit("object");
    reveal_strlit("choices");
    reveal_strlit("index");
    reveal_strlit("delta");
    reveal_strlit("function");
    reveal_strlit("type");
    reveal_strlit("name");
    reveal_strlit("arguments");
    reveal_strlit("response.output_text.delta");
    reveal_strlit("response.output_item.added");
    reveal_strlit("response.function_call_arguments.delta");
    assert("id"@[0] != "choices"@[0]);
    assert("object"@[0] != "choices"@[0]);
    assert("index"@[0] != "delta"@[0]);
    assert("id"@[0] != "function"@[0]);
    assert("type"@[0] != "function"@[0]);
    assert("index"@[0] != "function"@[0]);
    assert("index"@.len() != "id"@.len());
    assert("index"@[0] != "type"@[0]);
    assert("id"@[0] != "type"@[0]);
    assert("name"@[0] != "arguments"@[0]);
    assert("response.output_text.delta"@[16] != "response.output_item.added"@[16]);
    assert("response.output_text.delta"@[9] != "response.function_call_arguments.delta"@[9]);
    assert("response.output_item.added"@[9] != "response.function_call_arguments.delta"@[9]);
}

/// A text delta event of a Responses stream becomes a Chat chunk whose
/// delta content is the event's `delta` (`""` where missing).
pub proof fn law_responses_text_delta(v: JsonV)
    ensures
        match stream::chat_stream_frame("response.output_text.delta"@, v) {
            Some(FrameV::Data(d)) => match first_delta(d) {
                Some(x) => x.get("content"@) == Some(member_or(v, "delta"@, json::str_v(""@))),
                None => false,
            },
            _ => false,
        },
{
    lemma_chunk_keys();
    reveal_with_fuel(json::lookup, 3);
}

/// An added function call item of a Responses stream becomes a Chat chunk
/// whose one tool call has the item's `call_id` as id (`call_1` where
/// missing), type `function`, the item's name (`function` where missing)
/// and empty arguments.
pub proof fn law_responses_added_call(v: JsonV)
    requires
        json::path2(v, "item"@, "type"@) == Some(json::str_v("function_call"@)),
    ensures
        match stream::chat_stream_frame("response.output_item.added"@, v) {
            Some(FrameV::Data(d)) => match first_delta_call(d) {
                Some(c) => {
                    &&& c.get("id"@) == Some(
                        match json::path2(v, "item"@, "call_id"@) {
                            Some(x) => x,
                            None => json::str_v("call_1"@),
                        },
                    )
                    &&& c.get("type"@) == Some(json::str_v("function"@))
                    &&& json::path2(c, "function"@, "name"@) == Some(
                        match json::path2(v, "item"@, "name"@) {
                            Some(x) => x,
                            None => json::str_v("function"@),
                        },
                    )
                    &&& json::path2(c, "function"@, "arguments"@) == Some(json::str_v(""@))
                },
                None => false,
            },
            _ => false,
        },
{
    lemma_chunk_keys();
    reveal_strlit("function_call");
    reveal_with_fuel(json::lookup, 4);
}

/// A function call arguments delta of a Responses stream becomes a Chat
/// chunk whose one tool call's function arguments are the event's `delta`
/// (`""` where missing).
pub proof fn law_responses_arguments_delta(v: JsonV)
    ensures
        match stream::chat_stream_frame("response.function_call_arguments.delta"@, v) {
            Some(FrameV::Data(d)) => match first_delta_call(d) {
                Some(c) => json::path2(c, "function"@, "arguments"@) == Some(
                    member_or(v, "delta"@, json::str_v(""@)),
                ),
                None => false,
            },
            _ => false,
        },
{
    lemma_chunk_keys();
    reveal_with_fuel(json::lookup, 3);
}

/// The text delta event of the converted Chat stream carries the chunk's
/// text piece as its `delta`.
pub proof fn law_text_delta_carries_piece(c: Seq<char>)
    ensures
        stream::text_delta_frame(c) matches FrameV::Event { name, data } && name
            == "response.output_text.delta"@ && data.get("delta"@) == Some(json::str_v(c)),
{
    reveal_strlit("type");
    reveal_strlit("item_id");
    reveal_strlit("output_index");
    reveal_strlit("content_index");
    reveal_strlit("delta");
    reveal_with_fuel(json::lookup, 6);
    assert("type"@[0] != "delta"@[0]);
    assert("item_id"@[0] != "delta"@[0]);
    assert("output_index"@[0] != "delta"@[0]);
    assert("content_index"@[0] != "delta"@[0]);
}

/// The `response.created` event for a state carries its response id and
/// model, with status `in_progress` and an empty output.
pub proof fn law_created_carries_id_model(s: ChatStreamV)
    ensures
        match stream::created_frame(s) {
            FrameV::Event { name, data } => name == "response.created"@ && match data.get("response"@) {
                Some(r) => r.get("id"@) == Some(json::str_v(s.response_id)) && r.get("model"@) == Some(
                    json::str_v(s.model),
                ) && r.get("status"@) == Some(json::str_v("in_progress"@)) && r.get("output"@) == Some(
                    JsonV::Array(seq![]),
                ),
                None => false,
            },
            _ => false,
        },
{
    reveal_strlit("type");
    reveal_strlit("response");
    reveal_strlit("id");
    reveal_strlit("object");
    reveal_strlit("model");
    reveal_strlit("status");
    reveal_strlit("output");
    reveal_with_fuel(json::lookup, 6);
    assert("type"@[0] != "response"@[0]);
    assert("id"@[0] != "model"@[0]);
    assert("id"@[0] != "status"@[0]);
    assert("id"@[0] != "output"@[0]);
    assert("object"@[0] != "model"@[0]);
    assert("object"@[0] != "status"@[0]);
    assert("object"@[1] != "output"@[1]);
    assert("model"@[0] != "status"@[0]);
    assert("model"@[0] != "output"@[0]);
    assert("status"@[0] != "output"@[0]);
}

/// A streamed tool call delta that starts a call (it has an id other than
/// the last call's, or there is no call yet, and it is not empty) is added
/// as a function call item whose `call_id` is the delta's id (`call_1`
/// where empty) and whose name is the delta's function name (`function`
/// where empty); the call is recorded with those and the delta's arguments.
pub proof fn law_tool_call_start(calls: Seq<stream::CallV>, call: JsonV)
    ensures
        ({
            let id = match call.get("id"@) {
                Some(x) => match x.as_str() {
                    Some(t) => t,
                    None => seq![],
                },
                None => seq![],
            };
            let name = match json::path2(call, "function"@, "name"@) {
                Some(x) => match x.as_str() {
                    Some(t) => t,
                    None => seq![],
                },
                None => seq![],
            };
            let args = match json::path2(call, "function"@, "arguments"@) {
                Some(x) => match x.as_str() {
                    Some(t) => t,
                    None => seq![],
                },
                None => seq![],
            };
            let starts = !(id.len() == 0 && name.len() == 0 && args.len() == 0) && !(calls.len() > 0
                && (id.len() == 0 || id == calls.last().call_id));
            let sid = if id.len() == 0 { "call_1"@ } else { id };
            let sname = if name.len() == 0 { "function"@ } else { name };
            starts ==> {
                let (cs, fs) = stream::chat_tool_call(calls, call);
                &&& cs == calls.push(stream::CallV { call_id: sid, name: sname, arguments: args })
                &&& fs.len() > 0
                &&& fs[0] matches FrameV::Event { name: n, data } && n == "response.output_item.added"@
                    && json::path2(data, "item"@, "call_id"@) == Some(json::str_v(sid))
                    && json::path2(data, "item"@, "name"@) == Some(json::str_v(sname))
                    && json::path2(data, "item"@, "type"@) == Some(json::str_v("function_call"@))
            }
        }),
{
    reveal_strlit("type");
    reveal_strlit("item");
    reveal_strlit("call_id");
    reveal_strlit("name");
    reveal_strlit("arguments");
    reveal_with_fuel(json::lookup, 4);
    assert("type"@[0] != "item"@[0]);
    assert("type"@[0] != "call_id"@[0]);
    assert("type"@[0] != "name"@[0]);
    assert("call_id"@[0] != "name"@[0]);
    let id = match json::get_str(call, "id"@) {
        Some(t) => t,
        None => ""@,
    };
    let name = stream::call_function_str(call, "name"@);
    let args = stream::call_function_str(call, "arguments"@);
    reveal_strlit("");
    assert(""@ =~= Seq::<char>::empty());
    if !(id.len() == 0 && name.len() == 0 && args.len() == 0) && !stream::continues_call(calls, id) {
        let c = stream::CallV {
            call_id: stream::or_default(id, "call_1"@),
            name: stream::or_default(name, "function"@),
            arguments: args,
        };
        let fs = stream::chat_tool_call(calls, call).1;
        assert(fs == seq![stream::call_added_frame(c.call_id, c.name)] + stream::call_arguments_frames(args));
        assert(fs[0] == stream::call_added_frame(c.call_id, c.name));
        let d = stream::call_added_frame(c.call_id, c.name)->data;
        assert(d.get("item"@) == Some(d->Object_0[1].1));
    }
}

// ---------------------------------------------------------------------------
// Content, tools and tool choices, stated over the input members
// ---------------------------------------------------------------------------

/// The text a content part gives: its `text` member where it has one and
/// it is a string; where it has no `text` member, its `content` member
/// where that is a string; else nothing.
pub open spec fn part_piece(p: JsonV) -> Seq<char> {
    match p.get("text"@) {
        Some(JsonV::Str(t)) => t,
        Some(_) => seq![],
        None => match p.get("content"@) {
            Some(JsonV::Str(t)) => t,
            _ => seq![],
        },
    }
}

/// Content that is not an array of parts is kept as it is; an array of one
/// part becomes that part's text; and the text of the parts `a` then `b` is
/// the text of `a` followed by the text of `b`.
pub proof fn law_content_parts(content: JsonV, p: JsonV, a: Seq<JsonV>, b: Seq<JsonV>)
    ensures
        content.as_array() is None ==> convert::chat_content(content) == content,
        convert::chat_content(JsonV::Array(seq![p])) == JsonV::Str(part_piece(p)),
        convert::chat_content(JsonV::Array(a + b)) == JsonV::Str(
            convert::chat_content(JsonV::Array(a))->Str_0 + convert::chat_content(JsonV::Array(b))->Str_0,
        ),
{
    assert(seq![p].drop_last() =~= Seq::<JsonV>::empty());
    assert(seq![p].last() == p);
    assert(convert::joined_part_texts(Seq::<JsonV>::empty()) == Seq::<char>::empty());
    assert(convert::joined_part_texts(seq![p]) =~= part_piece(p));
    lemma_joined_part_texts_append(a, b);
}

proof fn lemma_joined_part_texts_append(a: Seq<JsonV>, b: Seq<JsonV>)
    ensures
        convert::joined_part_texts(a + b) == convert::joined_part_texts(a) + convert::joined_part_texts(b),
    decreases b.len(),
{
    if b.len() == 0 {
        assert(a + b =~= a);
        assert(convert::joined_part_texts(a) + convert::joined_part_texts(b) =~= convert::joined_part_texts(a));
    } else {
        lemma_joined_part_texts_append(a, b.drop_last());
        assert((a + b).drop_last() =~= a + b.drop_last());
        assert((a + b).last() == b.last());
        let t = match convert::part_text(b.last()) {
            Some(t) => t,
            None => Seq::<char>::empty(),
        };
        assert(convert::joined_part_texts(a) + convert::joined_part_texts(b.drop_last()) + t
            =~= convert::joined_part_texts(a) + (convert::joined_part_texts(b.drop_last()) + t));
    }
}

/// A Responses function tool choice that names its function at the top
/// level becomes `{type: function, function: {name}}` with that name; a
/// string choice is kept; a choice of another type is dropped.
pub proof fn law_tool_choice_to_chat(choice: JsonV, name: Seq<char>)
    ensures
        (has_type(choice, "function"@) && choice.get("function"@) is None && choice.get("name"@) == Some(
            json::str_v(name),
        ) && name.len() > 0) ==> convert::chat_tool_choice(choice) == Some(
            JsonV::Object(
                seq![
                    ("type"@, json::str_v("function"@)),
                    ("function"@, JsonV::Object(seq![("name"@, json::str_v(name))])),
                ],
            ),
        ),
        choice.as_str() is Some ==> convert::chat_tool_choice(choice) == Some(choice),
        (choice.as_str() is None && !has_type(choice, "function"@)) ==> convert::chat_tool_choice(choice)
            is None,
{
}

/// A flat Responses function tool with a non-empty string name becomes a
/// Chat function tool with that name and the tool's description (`""`
/// where missing) and parameters (`{}` where missing); a tool whose type is
/// not `function` is dropped.
pub proof fn law_chat_tool_flat(tool: JsonV, name: Seq<char>)
    ensures
        (has_type(tool, "function"@) && tool.get("function"@) is None && tool.get("name"@) == Some(
            json::str_v(name),
        ) && name.len() > 0) ==> convert::chat_tool(tool) == Some(
            JsonV::Object(
                seq![
                    ("type"@, json::str_v("function"@)),
                    ("function"@, JsonV::Object(seq![
                        ("name"@, json::str_v(name)),
                        ("description"@, member_or(tool, "description"@, json::str_v(""@))),
                        ("parameters"@, member_or(tool, "parameters"@, json::empty_object())),
                    ])),
                ],
            ),
        ),
        !has_type(tool, "function"@) ==> convert::chat_tool(tool) is None,
{
}

/// A Chat function tool with a `function` object becomes a flat Responses
/// function tool with the function's name (`function` where missing),
/// description (`""` where missing) and parameters (`{}` where missing).
pub proof fn law_responses_tool_flat(tool: JsonV, func: JsonV)
    requires
        has_type(tool, "function"@),
        tool.get("function"@) == Some(func),
    ensures
        convert::responses_tool(tool) == JsonV::Object(
            seq![
                ("type"@, json::str_v("function"@)),
                ("name"@, member_or(func, "name"@, json::str_v("function"@))),
                ("description"@, member_or(func, "description"@, json::str_v(""@))),
                ("parameters"@, member_or(func, "parameters"@, json::empty_object())),
            ],
        ),
{
}

/// The finish reason of the Chat response for a Responses response:
/// `length` for an `incomplete` response cut at `max_output_tokens`, else
/// `tool_calls` where the output has function call items, else `stop`.
pub proof fn law_chat_finish_reason(body: JsonV)
    ensures
        ({
            let items = match body.get("output"@) {
                Some(o) => match o.as_array() {
                    Some(a) => a,
                    None => seq![],
                },
                None => seq![],
            };
            let f = if body.get("status"@) == Some(json::str_v("incomplete"@)) && json::path2(
                body,
                "incomplete_details"@,
                "reason"@,
            ) == Some(json::str_v("max_output_tokens"@)) {
                "length"@
            } else if function_call_items(items).len() > 0 {
                "tool_calls"@
            } else {
                "stop"@
            };
            match response::chat_response(body).get("choices"@) {
                Some(JsonV::Array(cs)) => cs.len() == 1 && cs[0].get("finish_reason"@) == Some(
                    json::str_v(f),
                ),
                _ => false,
            }
        }),
{
    law_chat_response_message(body);
    lemma_output_tool_calls_for(response::output_items(body));
    reveal_strlit("index");
    reveal_strlit("message");
    reveal_strlit("finish_reason");
    reveal_strlit("incomplete");
    reveal_strlit("completed");
    reveal_with_fuel(json::lookup, 3);
    assert("index"@[0] != "finish_reason"@[0]);
    assert("message"@[0] != "finish_reason"@[0]);
    assert("incomplete"@[0] != "completed"@[0]);
}

/// The message text of a Responses output: the text of items `a` then `b`
/// is the text of `a` followed by that of `b`; a `message` item gives the
/// string `text`s of its content parts, in order; any other item gives
/// nothing.
pub proof fn law_output_text(a: Seq<JsonV>, b: Seq<JsonV>, item: JsonV, parts: Seq<JsonV>)
    ensures
        response::output_text(a + b) == response::output_text(a) + response::output_text(b),
        !has_type(item, "message"@) ==> response::output_text(seq![item]) == Seq::<char>::empty(),
        (has_type(item, "message"@) && item.get("content"@) == Some(JsonV::Array(parts)))
            ==> response::output_text(seq![item]) == response::output_parts_text(parts),
        response::output_parts_text(parts.push(item)) == response::output_parts_text(parts) + match item.get(
            "text"@,
        ) {
            Some(JsonV::Str(t)) => t,
            _ => seq![],
        },
{
    lemma_output_text_append(a, b);
    assert(seq![item].drop_last() =~= Seq::<JsonV>::empty());
    assert(seq![item].last() == item);
    assert(response::output_text(Seq::<JsonV>::empty()) == Seq::<char>::empty());
    assert(has_type(item, "message"@) == (json::get_str(item, "type"@) == Some("message"@)));
    assert(parts.push(item).drop_last() =~= parts);
    if has_type(item, "message"@) && item.get("content"@) == Some(JsonV::Array(parts)) {
        assert(response::output_text(seq![item]) =~= response::output_parts_text(parts));
    } else {
        assert(Seq::<char>::empty() + Seq::<char>::empty() =~= Seq::<char>::empty());
    }
}

proof fn lemma_output_text_append(a: Seq<JsonV>, b: Seq<JsonV>)
    ensures
        response::output_text(a + b) == response::output_text(a) + response::output_text(b),
    decreases b.len(),
{
    if b.len() == 0 {
        assert(a + b =~= a);
        assert(response::output_text(a) + response::output_text(b) =~= response::output_text(a));
    } else {
        lemma_output_text_append(a, b.drop_last());
        assert((a + b).drop_last() =~= a + b.drop_last());
        assert((a + b).last() == b.last());
        let t = if json::get_str(b.last(), "type"@) == Some("message"@) {
            match response::get_array(b.last(), "content"@) {
                Some(ps) => response::output_parts_text(ps),
                None => Seq::<char>::empty(),
            }
        } else {
            Seq::<char>::empty()
        };
        assert(response::output_text(a) + response::output_text(b.drop_last()) + t
            =~= response::output_text(a) + (response::output_text(b.drop_last()) + t));
    }
}

/// A Responses input item with a string role that is neither a function
/// call nor a function call output becomes one Chat message with that role
/// (`developer` as `system`) and its content converted (`""` where
/// missing); an item of neither kind without a string role gives no message.
pub proof fn law_message_input_item(item: JsonV)
    requires
        !has_type(item, "function_call"@),
        !has_type(item, "function_call_output"@),
    ensures
        match item.get("role"@) {
            Some(JsonV::Str(r)) => request::input_item_messages(item) == seq![
                JsonV::Object(
                    seq![
                        ("role"@, json::str_v(if r == "developer"@ { "system"@ } else { r })),
                        ("content"@, match item.get("content"@) {
                            Some(c) => convert::chat_content(c),
                            None => json::str_v(""@),
                        }),
                    ],
                ),
            ],
            _ => request::input_item_messages(item) == Seq::<JsonV>::empty(),
        },
{
}

/// The `instructions` of a converted Chat request: the string contents of
/// the `system` messages, joined with one newline between each two. A
/// `system` message with string content adds its text, any other message
/// adds none; one text is itself, and a further text follows a newline.
pub proof fn law_system_texts(ms: Seq<JsonV>, m: JsonV, ts: Seq<Seq<char>>, t: Seq<char>)
    ensures
        request::system_texts(ms.push(m)) == if m.get("role"@) == Some(json::str_v("system"@)) && m.get(
            "content"@,
        ) is Some && m.get("content"@).unwrap().as_str() is Some {
            request::system_texts(ms).push(m.get("content"@).unwrap().as_str().unwrap())
        } else {
            request::system_texts(ms)
        },
        request::join_lines(seq![t]) == t,
        ts.len() > 0 ==> request::join_lines(ts.push(t)) == request::join_lines(ts) + seq!['\n'] + t,
{
    assert(ms.push(m).drop_last() =~= ms);
    assert(ms.push(m).last() == m);
    assert(ts.push(t).drop_last() =~= ts);
    reveal_strlit("\n");
    assert("\n"@ =~= seq!['\n']);
}

} // verus!
