use crate::convert::{
    self, chat_tool_choice_to_responses, chat_tools_to_responses_tools,
    responses_message_to_chat_message, responses_tool_choice_to_chat,
    responses_tools_to_chat_tools,
};
use crate::error::ProxyError;
use crate::json::{
    self, new_items, new_members, push_item, push_member, push_member_if, text, Json, JsonV,
};
use crate::text::text_eq;
use vstd::prelude::*;

verus! {

// ---------------------------------------------------------------------------
// Responses request -> Chat request
// ---------------------------------------------------------------------------

/// The Chat messages for one item of a Responses `input` array: a function
/// call output becomes a `tool` message, a function call with a non-empty
/// name an `assistant` message with one tool call, and any other item with
/// a string `role` a message (items without one are dropped).
pub open spec fn input_item_messages(item: JsonV) -> Seq<JsonV> {
    if json::get_str(item, "type"@) == Some("function_call_output"@) {
        seq![
            JsonV::Object(
                seq![
                    ("role"@, json::str_v("tool"@)),
                    ("tool_call_id"@, json::get_or(item, "call_id"@, json::str_v(""@))),
                    ("content"@, json::get_or(item, "output"@, json::str_v(""@))),
                ],
            ),
        ]
    } else if json::get_str(item, "type"@) == Some("function_call"@) {
        let name = match json::get_str(item, "name"@) {
            Some(n) => n,
            None => ""@,
        };
        if name.len() == 0 {
            seq![]
        } else {
            seq![
                JsonV::Object(
                    seq![
                        ("role"@, json::str_v("assistant"@)),
                        ("tool_calls"@, JsonV::Array(seq![
                            JsonV::Object(seq![
                                ("id"@, json::get_or(item, "call_id"@, json::str_v("call_1"@))),
                                ("type"@, json::str_v("function"@)),
                                ("function"@, JsonV::Object(seq![
                                    ("name"@, json::str_v(name)),
                                    ("arguments"@, json::get_or(item, "arguments"@, json::str_v("{}"@))),
                                ])),
                            ]),
                        ])),
                    ],
                ),
            ]
        }
    } else {
        match convert::chat_message(item) {
            Some(m) => seq![m],
            None => seq![],
        }
    }
}

/// The Chat messages for the items of a Responses `input` array, in order.
pub open spec fn input_items_messages(items: Seq<JsonV>) -> Seq<JsonV>
    decreases items.len(),
{
    if items.len() == 0 {
        Seq::empty()
    } else {
        input_items_messages(items.drop_last()) + input_item_messages(items.last())
    }
}

/// The Chat messages for a Responses `input`: a string is one `user`
/// message, an object is taken as one message, an array is converted item
/// by item; anything else gives none.
pub open spec fn input_messages(input: Option<JsonV>) -> Seq<JsonV> {
    match input {
        Some(JsonV::Str(s)) => seq![
            JsonV::Object(seq![("role"@, json::str_v("user"@)), ("content"@, json::str_v(s))]),
        ],
        Some(JsonV::Object(es)) => seq![JsonV::Object(es)],
        Some(JsonV::Array(items)) => input_items_messages(items),
        _ => seq![],
    }
}

/// The Chat `messages` for a Responses request: a `system` message with
/// the string `instructions`, if any, then the messages of `input`.
pub open spec fn chat_messages(body: JsonV) -> Seq<JsonV> {
    (match json::get_str(body, "instructions"@) {
        Some(i) => seq![
            JsonV::Object(seq![("role"@, json::str_v("system"@)), ("content"@, json::str_v(i))]),
        ],
        None => seq![],
    }) + input_messages(body.get("input"@))
}

/// The Chat request for a Responses request body.
pub open spec fn chat_request(body: JsonV) -> JsonV {
    let es = Seq::empty();
    let es = json::push_some(es, "model"@, body.get("model"@));
    let es = json::push_some(es, "stream"@, body.get("stream"@));
    let es = json::push_some(es, "temperature"@, body.get("temperature"@));
    let es = json::push_some(es, "top_p"@, body.get("top_p"@));
    let es = json::push_some(es, "max_tokens"@, body.get("max_output_tokens"@));
    let es = json::push_some(es, "reasoning_effort"@, json::path2(body, "reasoning"@, "effort"@));
    let es = json::push_some(
        es,
        "tool_choice"@,
        match body.get("tool_choice"@) {
            Some(tc) => convert::chat_tool_choice(tc),
            None => None,
        },
    );
    let es = json::push_some(
        es,
        "tools"@,
        match body.get("tools"@) {
            Some(t) => Some(convert::chat_tools(t)),
            None => None,
        },
    );
    JsonV::Object(es.push(("messages"@, JsonV::Array(chat_messages(body)))))
}

fn input_item_to_messages(item: &Json, messages: &mut Vec<Json>)
    ensures
        json::items_view(final(messages)@) == json::items_view(old(messages)@) + input_item_messages(
            item@,
        ),
{
    let kind = item.get_str("type");
    let is_output = match kind {
        Some(t) => text_eq(t, "function_call_output"),
        None => false,
    };
    let is_call = match kind {
        Some(t) => text_eq(t, "function_call"),
        None => false,
    };
    let ghost before = json::items_view(messages@);
    if is_output {
        let mut es = new_members();
        push_member(&mut es, "role", text("tool"));
        push_member(&mut es, "tool_call_id", item.get_or("call_id", text("")));
        push_member(&mut es, "content", item.get_or("output", text("")));
        let ghost m = input_item_messages(item@)[0];
        assert(json::entries_view(es@) =~= m->Object_0);
        push_item(messages, Json::Object(es));
        assert(json::items_view(messages@) =~= before + input_item_messages(item@));
    } else if is_call {
        let name = match item.get_str("name") {
            Some(n) => n,
            None => "",
        };
        if name.is_empty() {
            assert(json::items_view(messages@) =~= before + input_item_messages(item@));
            return;
        }
        let mut func = new_members();
        push_member(&mut func, "name", text(name));
        push_member(&mut func, "arguments", item.get_or("arguments", text("{}")));
        let mut call = new_members();
        push_member(&mut call, "id", item.get_or("call_id", text("call_1")));
        push_member(&mut call, "type", text("function"));
        push_member(&mut call, "function", Json::Object(func));
        let mut calls = new_items();
        push_item(&mut calls, Json::Object(call));
        let mut es = new_members();
        push_member(&mut es, "role", text("assistant"));
        push_member(&mut es, "tool_calls", Json::Array(calls));
        let ghost m = input_item_messages(item@)[0];
        let ghost c = m->Object_0[1].1->Array_0[0];
        assert(json::entries_view(func@) =~= c->Object_0[2].1->Object_0);
        assert(json::entries_view(call@) =~= c->Object_0);
        assert(json::items_view(calls@) =~= m->Object_0[1].1->Array_0);
        assert(json::entries_view(es@) =~= m->Object_0);
        push_item(messages, Json::Object(es));
        assert(json::items_view(messages@) =~= before + input_item_messages(item@));
    } else {
        if let Some(message) = responses_message_to_chat_message(item) {
            push_item(messages, message);
        }
        assert(json::items_view(messages@) =~= before + input_item_messages(item@));
    }
}

fn input_to_messages(input: &Json, messages: &mut Vec<Json>)
    ensures
        json::items_view(final(messages)@) == json::items_view(old(messages)@) + input_messages(
            Some(input@),
        ),
{
    let ghost before = json::items_view(messages@);
    match input {
        Json::Str(s) => {
            let mut es = new_members();
            push_member(&mut es, "role", text("user"));
            push_member(&mut es, "content", text(s.as_str()));
            assert(json::entries_view(es@) =~= input_messages(Some(input@))[0]->Object_0);
            push_item(messages, Json::Object(es));
            assert(json::items_view(messages@) =~= before + input_messages(Some(input@)));
        },
        Json::Object(_) => {
            push_item(messages, input.clone());
            assert(json::items_view(messages@) =~= before + input_messages(Some(input@)));
        },
        Json::Array(items) => {
            let ghost iv = json::items_view(items@);
            proof {
                json::lemma_items_view(items@);
                assert(iv.take(0) =~= Seq::<JsonV>::empty());
                assert(json::items_view(messages@) =~= before + input_items_messages(iv.take(0)));
            }
            for i in 0..items.len()
                invariant
                    iv == json::items_view(items@),
                    iv.len() == items@.len(),
                    forall|k: int| 0 <= k < iv.len() ==> #[trigger] iv[k] == json::json_view(items@[k]),
                    json::items_view(messages@) == before + input_items_messages(iv.take(i as int)),
            {
                assert(iv.take(i + 1).drop_last() =~= iv.take(i as int));
                assert(iv.take(i + 1).last() == iv[i as int]);
                input_item_to_messages(&items[i], messages);
                assert(json::items_view(messages@) =~= before + input_items_messages(iv.take(i + 1)));
            }
            assert(iv.take(items.len() as int) =~= iv);
        },
        _ => {
            assert(json::items_view(messages@) =~= before + input_messages(Some(input@)));
        },
    }
}

/// Converts a Responses API request body into a Chat Completions request body.
pub fn responses_to_chat_request(body: Json) -> (r: Result<Json, ProxyError>)
    ensures
        r matches Ok(v) && v@ == chat_request(body@),
{
    let mut out = new_members();
    push_member_if(&mut out, "model", body.get_cloned("model"));
    push_member_if(&mut out, "stream", body.get_cloned("stream"));
    push_member_if(&mut out, "temperature", body.get_cloned("temperature"));
    push_member_if(&mut out, "top_p", body.get_cloned("top_p"));
    push_member_if(&mut out, "max_tokens", body.get_cloned("max_output_tokens"));
    let effort = match body.path2("reasoning", "effort") {
        Some(e) => Some(e.clone()),
        None => None,
    };
    push_member_if(&mut out, "reasoning_effort", effort);
    let tool_choice = match body.get("tool_choice") {
        Some(tc) => responses_tool_choice_to_chat(tc),
        None => None,
    };
    push_member_if(&mut out, "tool_choice", tool_choice);
    let tools = match body.get("tools") {
        Some(t) => Some(responses_tools_to_chat_tools(t)),
        None => None,
    };
    push_member_if(&mut out, "tools", tools);

    let mut messages = new_items();
    if let Some(instr) = body.get_str("instructions") {
        let mut es = new_members();
        push_member(&mut es, "role", text("system"));
        push_member(&mut es, "content", text(instr));
        assert(json::entries_view(es@) =~= chat_messages(body@)[0]->Object_0);
        push_item(&mut messages, Json::Object(es));
    }
    let ghost head = json::items_view(messages@);
    if let Some(input) = body.get("input") {
        input_to_messages(input, &mut messages);
    } else {
        assert(json::items_view(messages@) =~= head + input_messages(body@.get("input"@)));
    }
    assert(json::items_view(messages@) =~= chat_messages(body@));
    push_member(&mut out, "messages", Json::Array(messages));
    Ok(Json::Object(out))
}


// ---------------------------------------------------------------------------
// Chat request -> Responses request
// ---------------------------------------------------------------------------

pub open spec fn is_system_message(msg: JsonV) -> bool {
    json::get_str(msg, "role"@) == Some("system"@)
}

/// The string contents of the `system` messages, in order.
pub open spec fn system_texts(msgs: Seq<JsonV>) -> Seq<Seq<char>>
    decreases msgs.len(),
{
    if msgs.len() == 0 {
        Seq::empty()
    } else if is_system_message(msgs.last()) {
        match json::get_str(msgs.last(), "content"@) {
            Some(c) => system_texts(msgs.drop_last()).push(c),
            None => system_texts(msgs.drop_last()),
        }
    } else {
        system_texts(msgs.drop_last())
    }
}

/// The messages that are not `system` messages, in order.
pub open spec fn non_system_messages(msgs: Seq<JsonV>) -> Seq<JsonV>
    decreases msgs.len(),
{
    if msgs.len() == 0 {
        Seq::empty()
    } else if is_system_message(msgs.last()) {
        non_system_messages(msgs.drop_last())
    } else {
        non_system_messages(msgs.drop_last()).push(msgs.last())
    }
}

/// The texts joined with a newline between each two.
pub open spec fn join_lines(ts: Seq<Seq<char>>) -> Seq<char>
    decreases ts.len(),
{
    if ts.len() == 0 {
        Seq::empty()
    } else if ts.len() == 1 {
        ts[0]
    } else {
        join_lines(ts.drop_last()) + "\n"@ + ts.last()
    }
}

/// The elements of the Chat `messages` array; none where it is missing or
/// not an array.
pub open spec fn message_list(body: JsonV) -> Seq<JsonV> {
    match body.get("messages"@) {
        Some(m) => match m.as_array() {
            Some(a) => a,
            None => seq![],
        },
        None => seq![],
    }
}

/// The Responses request for a Chat request body.
pub open spec fn responses_request(body: JsonV) -> JsonV {
    let es = Seq::empty();
    let es = json::push_some(es, "model"@, body.get("model"@));
    let es = json::push_some(es, "stream"@, body.get("stream"@));
    let es = json::push_some(es, "temperature"@, body.get("temperature"@));
    let es = json::push_some(es, "top_p"@, body.get("top_p"@));
    let es = json::push_some(
        es,
        "max_output_tokens"@,
        match body.get("max_completion_tokens"@) {
            Some(v) => Some(v),
            None => body.get("max_tokens"@),
        },
    );
    let es = json::push_some(
        es,
        "reasoning"@,
        match body.get("reasoning_effort"@) {
            Some(re) => Some(JsonV::Object(seq![("effort"@, re)])),
            None => None,
        },
    );
    let es = json::push_some(
        es,
        "tool_choice"@,
        match body.get("tool_choice"@) {
            Some(tc) => Some(convert::responses_tool_choice(tc)),
            None => None,
        },
    );
    let es = json::push_some(
        es,
        "tools"@,
        match body.get("tools"@) {
            Some(t) => Some(convert::responses_tools(t)),
            None => None,
        },
    );
    let texts = system_texts(message_list(body));
    let es = if texts.len() > 0 {
        es.push(("instructions"@, json::str_v(join_lines(texts))))
    } else {
        es
    };
    JsonV::Object(
        es.push(("input"@, JsonV::Array(non_system_messages(message_list(body))))),
    )
}

/// Converts a Chat Completions request body into a Responses API request body.
pub fn chat_to_responses_request(body: Json) -> (r: Result<Json, ProxyError>)
    ensures
        r matches Ok(v) && v@ == responses_request(body@),
{
    let mut out = new_members();
    push_member_if(&mut out, "model", body.get_cloned("model"));
    push_member_if(&mut out, "stream", body.get_cloned("stream"));
    push_member_if(&mut out, "temperature", body.get_cloned("temperature"));
    push_member_if(&mut out, "top_p", body.get_cloned("top_p"));
    let max = match body.get_cloned("max_completion_tokens") {
        Some(v) => Some(v),
        None => body.get_cloned("max_tokens"),
    };
    push_member_if(&mut out, "max_output_tokens", max);
    let reasoning = match body.get("reasoning_effort") {
        Some(re) => {
            let mut es = new_members();
            push_member(&mut es, "effort", re.clone());
            assert(json::entries_view(es@) =~= seq![("effort"@, re@)]);
            Some(Json::Object(es))
        },
        None => None,
    };
    push_member_if(&mut out, "reasoning", reasoning);
    let tool_choice = match body.get("tool_choice") {
        Some(tc) => Some(chat_tool_choice_to_responses(tc)),
        None => None,
    };
    push_member_if(&mut out, "tool_choice", tool_choice);
    let tools = match body.get("tools") {
        Some(t) => Some(chat_tools_to_responses_tools(t)),
        None => None,
    };
    push_member_if(&mut out, "tools", tools);

    let mut input = new_items();
    let mut instructions = String::new();
    let mut has_instructions = false;
    let empty: Vec<Json> = Vec::new();
    let msgs = match body.get("messages") {
        Some(m) => match m.as_array() {
            Some(a) => a,
            None => &empty,
        },
        None => &empty,
    };
    let ghost mv = json::items_view(msgs@);
    proof {
        json::lemma_items_view(msgs@);
        assert(mv =~= message_list(body@));
        assert(mv.take(0) =~= Seq::<JsonV>::empty());
        assert(json::items_view(input@) =~= non_system_messages(mv.take(0)));
    }
    for i in 0..msgs.len()
        invariant
            mv == json::items_view(msgs@),
            mv.len() == msgs@.len(),
            forall|k: int| 0 <= k < mv.len() ==> #[trigger] mv[k] == json::json_view(msgs@[k]),
            json::items_view(input@) == non_system_messages(mv.take(i as int)),
            has_instructions == (system_texts(mv.take(i as int)).len() > 0),
            instructions@ == join_lines(system_texts(mv.take(i as int))),
    {
        let ghost ts = system_texts(mv.take(i as int));
        assert(mv.take(i + 1).drop_last() =~= mv.take(i as int));
        assert(mv.take(i + 1).last() == mv[i as int]);
        let msg = &msgs[i];
        let is_system = match msg.get_str("role") {
            Some(r) => text_eq(r, "system"),
            None => false,
        };
        if is_system {
            if let Some(c) = msg.get_str("content") {
                if has_instructions {
                    instructions.append("\n");
                }
                instructions.append(c);
                has_instructions = true;
                assert(ts.push(c@).drop_last() =~= ts);
                assert(instructions@ =~= join_lines(ts.push(c@)));
            }
        } else {
            push_item(&mut input, msg.clone());
        }
    }
    assert(mv.take(msgs.len() as int) =~= mv);
    if has_instructions {
        push_member(&mut out, "instructions", Json::Str(instructions));
    }
    push_member(&mut out, "input", Json::Array(input));
    Ok(Json::Object(out))
}

} // verus!
