use crate::error::ProxyError;
use crate::json::{
    self, int_json, new_items, new_members, new_object, push_item, push_member, text, Json,
    JsonV,
};
use crate::text::text_eq;
use vstd::prelude::*;

verus! {

// ---------------------------------------------------------------------------
// Chat response -> Responses response
// ---------------------------------------------------------------------------

/// The first choice of a Chat response (`/choices/0`), or `{}`.
pub open spec fn first_choice(body: JsonV) -> JsonV {
    json::opt_or(
        match body.get("choices"@) {
            Some(c) => json::at_zero(c),
            None => None,
        },
        json::empty_object(),
    )
}

/// The `finish_reason` of the first choice, `stop` where it is missing or
/// not a string.
pub open spec fn finish_reason(body: JsonV) -> Seq<char> {
    match json::get_str(first_choice(body), "finish_reason"@) {
        Some(f) => f,
        None => "stop"@,
    }
}

/// The Responses `function_call` output item for one Chat tool call.
pub open spec fn function_call_item(call: JsonV) -> JsonV {
    JsonV::Object(
        seq![
            ("type"@, json::str_v("function_call"@)),
            ("call_id"@, json::get_or(call, "id"@, json::str_v("call_1"@))),
            ("name"@, json::opt_or(json::path2(call, "function"@, "name"@), json::str_v("function"@))),
            ("arguments"@, json::opt_or(json::path2(call, "function"@, "arguments"@), json::str_v("{}"@))),
        ],
    )
}

/// The array at `key`, if there is one.
pub open spec fn get_array(j: JsonV, key: Seq<char>) -> Option<Seq<JsonV>> {
    match j.get(key) {
        Some(v) => v.as_array(),
        None => None,
    }
}

/// The Responses `output` for a Chat response: a message holding the
/// content of the first choice's message, if it has one, then a function
/// call item for each of its tool calls.
pub open spec fn responses_output(body: JsonV) -> Seq<JsonV> {
    let message = json::get_or(first_choice(body), "message"@, json::empty_object());
    (match message.get("content"@) {
        Some(c) => seq![
            JsonV::Object(
                seq![
                    ("type"@, json::str_v("message"@)),
                    ("role"@, json::str_v("assistant"@)),
                    ("content"@, JsonV::Array(seq![
                        JsonV::Object(seq![("type"@, json::str_v("output_text"@)), ("text"@, c)]),
                    ])),
                ],
            ),
        ],
        None => seq![],
    }) + match get_array(message, "tool_calls"@) {
        Some(calls) => calls.map_values(|c: JsonV| function_call_item(c)),
        None => seq![],
    }
}

/// The Responses `usage` for a Chat `usage`.
pub open spec fn responses_usage(u: JsonV) -> JsonV {
    JsonV::Object(
        seq![
            ("input_tokens"@, json::get_or(u, "prompt_tokens"@, json::int_v(0))),
            ("output_tokens"@, json::get_or(u, "completion_tokens"@, json::int_v(0))),
            ("input_tokens_details"@, JsonV::Object(seq![
                ("cached_tokens"@, json::opt_or(
                    json::path2(u, "prompt_tokens_details"@, "cached_tokens"@),
                    json::int_v(0),
                )),
            ])),
        ],
    )
}

/// The Responses response for a Chat response body. A `length` finish
/// makes the response `incomplete` for `max_output_tokens`; any other
/// finish makes it `completed`.
pub open spec fn responses_response(body: JsonV) -> JsonV {
    let length = finish_reason(body) == "length"@;
    let es = seq![
        ("id"@, json::get_or(body, "id"@, json::str_v("resp_chat"@))),
        ("object"@, json::str_v("response"@)),
        ("model"@, json::get_or(body, "model"@, json::str_v("unknown"@))),
        ("status"@, json::str_v(if length { "incomplete"@ } else { "completed"@ })),
        ("output"@, JsonV::Array(responses_output(body))),
    ];
    let es = if length {
        es.push(("incomplete_details"@, JsonV::Object(seq![("reason"@, json::str_v("max_output_tokens"@))])))
    } else {
        es
    };
    JsonV::Object(
        match body.get("usage"@) {
            Some(u) => es.push(("usage"@, responses_usage(u))),
            None => es,
        },
    )
}

fn chat_call_to_output_item(call: &Json) -> (r: Json)
    ensures
        r@ == function_call_item(call@),
{
    let name = match call.path2("function", "name") {
        Some(n) => n.clone(),
        None => text("function"),
    };
    let arguments = match call.path2("function", "arguments") {
        Some(a) => a.clone(),
        None => text("{}"),
    };
    let mut es = new_members();
    push_member(&mut es, "type", text("function_call"));
    push_member(&mut es, "call_id", call.get_or("id", text("call_1")));
    push_member(&mut es, "name", name);
    push_member(&mut es, "arguments", arguments);
    assert(json::entries_view(es@) =~= function_call_item(call@)->Object_0);
    Json::Object(es)
}

/// Converts a Chat Completions response body into a Responses API response body.
pub fn chat_to_responses_response(body: Json) -> (r: Result<Json, ProxyError>)
    ensures
        r matches Ok(v) && v@ == responses_response(body@),
{
    let empty = new_object();
    let choice = match body.get("choices") {
        Some(c) => match c.at_zero() {
            Some(x) => x,
            None => &empty,
        },
        None => &empty,
    };
    let message = choice.get_or("message", new_object());
    let finish = match choice.get_str("finish_reason") {
        Some(f) => f,
        None => "stop",
    };
    let mut output = new_items();
    if let Some(content) = message.get("content") {
        let mut part = new_members();
        push_member(&mut part, "type", text("output_text"));
        push_member(&mut part, "text", content.clone());
        let mut parts = new_items();
        push_item(&mut parts, Json::Object(part));
        let mut item = new_members();
        push_member(&mut item, "type", text("message"));
        push_member(&mut item, "role", text("assistant"));
        push_member(&mut item, "content", Json::Array(parts));
        let ghost m = responses_output(body@)[0];
        assert(json::entries_view(part@) =~= m->Object_0[2].1->Array_0[0]->Object_0);
        assert(json::items_view(parts@) =~= m->Object_0[2].1->Array_0);
        assert(json::entries_view(item@) =~= m->Object_0);
        push_item(&mut output, Json::Object(item));
    }
    let ghost head = json::items_view(output@);
    let calls = match message.get("tool_calls") {
        Some(t) => t.as_array(),
        None => None,
    };
    if let Some(calls) = calls {
        let ghost cv = json::items_view(calls@);
        proof {
            json::lemma_items_view(calls@);
        }
        for i in 0..calls.len()
            invariant
                cv == json::items_view(calls@),
                cv.len() == calls@.len(),
                forall|k: int| 0 <= k < cv.len() ==> #[trigger] cv[k] == json::json_view(calls@[k]),
                json::items_view(output@) =~= head + cv.take(i as int).map_values(
                    |c: JsonV| function_call_item(c),
                ),
        {
            push_item(&mut output, chat_call_to_output_item(&calls[i]));
        }
        assert(cv.take(calls.len() as int) =~= cv);
    }
    assert(json::items_view(output@) =~= responses_output(body@));
    let length = text_eq(finish, "length");
    let status = if length {
        "incomplete"
    } else {
        "completed"
    };
    let mut resp = new_members();
    push_member(&mut resp, "id", body.get_or("id", text("resp_chat")));
    push_member(&mut resp, "object", text("response"));
    push_member(&mut resp, "model", body.get_or("model", text("unknown")));
    push_member(&mut resp, "status", text(status));
    push_member(&mut resp, "output", Json::Array(output));
    if length {
        let mut details = new_members();
        push_member(&mut details, "reason", text("max_output_tokens"));
        assert(json::entries_view(details@) =~= seq![("reason"@, json::str_v("max_output_tokens"@))]);
        push_member(&mut resp, "incomplete_details", Json::Object(details));
    }
    if let Some(u) = body.get("usage") {
        let cached = match u.path2("prompt_tokens_details", "cached_tokens") {
            Some(c) => c.clone(),
            None => int_json(0),
        };
        let mut details = new_members();
        push_member(&mut details, "cached_tokens", cached);
        let mut usage = new_members();
        push_member(&mut usage, "input_tokens", u.get_or("prompt_tokens", int_json(0)));
        push_member(&mut usage, "output_tokens", u.get_or("completion_tokens", int_json(0)));
        push_member(&mut usage, "input_tokens_details", Json::Object(details));
        assert(json::entries_view(details@) =~= responses_usage(u@)->Object_0[2].1->Object_0);
        assert(json::entries_view(usage@) =~= responses_usage(u@)->Object_0);
        push_member(&mut resp, "usage", Json::Object(usage));
    }
    assert(json::entries_view(resp@) =~= responses_response(body@)->Object_0);
    Ok(Json::Object(resp))
}


// ---------------------------------------------------------------------------
// Responses response -> Chat response
// ---------------------------------------------------------------------------

/// The string `text`s of the parts, one after another.
pub open spec fn output_parts_text(parts: Seq<JsonV>) -> Seq<char>
    decreases parts.len(),
{
    if parts.len() == 0 {
        Seq::empty()
    } else {
        output_parts_text(parts.drop_last()) + match json::get_str(parts.last(), "text"@) {
            Some(t) => t,
            None => Seq::empty(),
        }
    }
}

/// The text of the `message` items of a Responses `output`, one after another.
pub open spec fn output_text(items: Seq<JsonV>) -> Seq<char>
    decreases items.len(),
{
    if items.len() == 0 {
        Seq::empty()
    } else {
        output_text(items.drop_last()) + if json::get_str(items.last(), "type"@) == Some(
            "message"@,
        ) {
            match get_array(items.last(), "content"@) {
                Some(parts) => output_parts_text(parts),
                None => Seq::empty(),
            }
        } else {
            Seq::empty()
        }
    }
}

/// The Chat tool call for a Responses `function_call` item.
pub open spec fn chat_tool_call(item: JsonV) -> JsonV {
    JsonV::Object(
        seq![
            ("id"@, json::get_or(item, "call_id"@, json::str_v("call_1"@))),
            ("type"@, json::str_v("function"@)),
            ("function"@, JsonV::Object(seq![
                ("name"@, json::get_or(item, "name"@, json::str_v("function"@))),
                ("arguments"@, json::get_or(item, "arguments"@, json::str_v("{}"@))),
            ])),
        ],
    )
}

/// The Chat tool calls for the `function_call` items of a Responses `output`.
pub open spec fn output_tool_calls(items: Seq<JsonV>) -> Seq<JsonV>
    decreases items.len(),
{
    if items.len() == 0 {
        Seq::empty()
    } else if json::get_str(items.last(), "type"@) == Some("function_call"@) {
        output_tool_calls(items.drop_last()).push(chat_tool_call(items.last()))
    } else {
        output_tool_calls(items.drop_last())
    }
}

/// The elements of the Responses `output`; none where it is missing or not an array.
pub open spec fn output_items(body: JsonV) -> Seq<JsonV> {
    match get_array(body, "output"@) {
        Some(items) => items,
        None => seq![],
    }
}

/// The Chat `finish_reason` for a Responses response: `length` for an
/// `incomplete` response cut at `max_output_tokens`, else `tool_calls`
/// when there are tool calls, else `stop`.
pub open spec fn chat_finish_reason(body: JsonV) -> Seq<char> {
    let status = match json::get_str(body, "status"@) {
        Some(s) => s,
        None => "completed"@,
    };
    let reason = match json::path2(body, "incomplete_details"@, "reason"@) {
        Some(v) => v.as_str(),
        None => None,
    };
    if status == "incomplete"@ && reason == Some("max_output_tokens"@) {
        "length"@
    } else if output_tool_calls(output_items(body)).len() > 0 {
        "tool_calls"@
    } else {
        "stop"@
    }
}

/// The integer at `key` where it fits in an `i64`, else 0.
pub open spec fn token_count(u: JsonV, key: Seq<char>) -> int {
    match u.get(key) {
        Some(v) => match v.as_i64() {
            Some(n) => n as int,
            None => 0,
        },
        None => 0,
    }
}

/// Whether the token total of a Responses `usage` fits in an `i64`.
pub open spec fn usage_total_fits(body: JsonV) -> bool {
    match body.get("usage"@) {
        Some(u) => i64::MIN <= token_count(u, "input_tokens"@) + token_count(u, "output_tokens"@)
            <= i64::MAX,
        None => true,
    }
}

/// The Chat `usage` for a Responses `usage`.
pub open spec fn chat_usage(u: JsonV) -> JsonV {
    JsonV::Object(
        seq![
            ("prompt_tokens"@, json::get_or(u, "input_tokens"@, json::int_v(0))),
            ("completion_tokens"@, json::get_or(u, "output_tokens"@, json::int_v(0))),
            ("total_tokens"@, json::int_v(
                (token_count(u, "input_tokens"@) + token_count(u, "output_tokens"@)) as i64,
            )),
        ],
    )
}

/// The Chat response message for a Responses response.
pub open spec fn chat_response_message(body: JsonV) -> JsonV {
    let calls = output_tool_calls(output_items(body));
    let es = seq![
        ("role"@, json::str_v("assistant"@)),
        ("content"@, json::str_v(output_text(output_items(body)))),
    ];
    JsonV::Object(
        if calls.len() > 0 {
            es.push(("tool_calls"@, JsonV::Array(calls)))
        } else {
            es
        },
    )
}

/// The Chat response for a Responses response body.
pub open spec fn chat_response(body: JsonV) -> JsonV {
    let es = seq![
        ("id"@, json::get_or(body, "id"@, json::str_v("chatcmpl_resp"@))),
        ("object"@, json::str_v("chat.completion"@)),
        ("model"@, json::get_or(body, "model"@, json::str_v("unknown"@))),
        ("choices"@, JsonV::Array(seq![
            JsonV::Object(seq![
                ("index"@, json::int_v(0)),
                ("message"@, chat_response_message(body)),
                ("finish_reason"@, json::str_v(chat_finish_reason(body))),
            ]),
        ])),
    ];
    JsonV::Object(
        match body.get("usage"@) {
            Some(u) => es.push(("usage"@, chat_usage(u))),
            None => es,
        },
    )
}

/// Whether the token total of a Responses `usage` fits in an `i64`, as
/// `responses_to_chat_response` needs.
pub fn response_usage_in_range(body: &Json) -> (r: bool)
    ensures
        r == usage_total_fits(body@),
{
    match body.get("usage") {
        Some(u) => {
            let a = token_count_exec(u, "input_tokens") as i128;
            let b = token_count_exec(u, "output_tokens") as i128;
            let total = a + b;
            -9223372036854775808i128 <= total && total <= 9223372036854775807i128
        },
        None => true,
    }
}

fn token_count_exec(u: &Json, key: &str) -> (r: i64)
    ensures
        r as int == token_count(u@, key@),
{
    match u.get(key) {
        Some(v) => match v.as_i64() {
            Some(n) => n,
            None => 0,
        },
        None => 0,
    }
}

fn append_output_parts_text(parts: &Vec<Json>, content: &mut String)
    ensures
        final(content)@ == old(content)@ + output_parts_text(json::items_view(parts@)),
{
    let ghost pv = json::items_view(parts@);
    let ghost start = content@;
    proof {
        json::lemma_items_view(parts@);
        assert(pv.take(0) =~= Seq::<JsonV>::empty());
        assert(content@ =~= start + output_parts_text(pv.take(0)));
    }
    for i in 0..parts.len()
        invariant
            pv == json::items_view(parts@),
            pv.len() == parts@.len(),
            forall|k: int| 0 <= k < pv.len() ==> #[trigger] pv[k] == json::json_view(parts@[k]),
            content@ == start + output_parts_text(pv.take(i as int)),
    {
        assert(pv.take(i + 1).drop_last() =~= pv.take(i as int));
        assert(pv.take(i + 1).last() == pv[i as int]);
        if let Some(t) = parts[i].get_str("text") {
            content.append(t);
        }
        assert(content@ =~= start + output_parts_text(pv.take(i + 1)));
    }
    assert(pv.take(parts.len() as int) =~= pv);
}

fn output_item_to_tool_call(item: &Json) -> (r: Json)
    ensures
        r@ == chat_tool_call(item@),
{
    let mut func = new_members();
    push_member(&mut func, "name", item.get_or("name", text("function")));
    push_member(&mut func, "arguments", item.get_or("arguments", text("{}")));
    let mut es = new_members();
    push_member(&mut es, "id", item.get_or("call_id", text("call_1")));
    push_member(&mut es, "type", text("function"));
    push_member(&mut es, "function", Json::Object(func));
    assert(json::entries_view(func@) =~= chat_tool_call(item@)->Object_0[2].1->Object_0);
    assert(json::entries_view(es@) =~= chat_tool_call(item@)->Object_0);
    Json::Object(es)
}

/// Converts a Responses API response body into a Chat Completions response body.
pub fn responses_to_chat_response(body: Json) -> (r: Result<Json, ProxyError>)
    requires
        usage_total_fits(body@),
    ensures
        r matches Ok(v) && v@ == chat_response(body@),
{
    let empty: Vec<Json> = Vec::new();
    let items = match body.get("output") {
        Some(o) => match o.as_array() {
            Some(a) => a,
            None => &empty,
        },
        None => &empty,
    };
    let ghost iv = json::items_view(items@);
    let mut content = String::new();
    let mut tool_calls = new_items();
    proof {
        json::lemma_items_view(items@);
        assert(iv =~= output_items(body@));
        assert(iv.take(0) =~= Seq::<JsonV>::empty());
    }
    for i in 0..items.len()
        invariant
            iv == json::items_view(items@),
            iv.len() == items@.len(),
            forall|k: int| 0 <= k < iv.len() ==> #[trigger] iv[k] == json::json_view(items@[k]),
            content@ == output_text(iv.take(i as int)),
            json::items_view(tool_calls@) == output_tool_calls(iv.take(i as int)),
    {
        assert(iv.take(i + 1).drop_last() =~= iv.take(i as int));
        assert(iv.take(i + 1).last() == iv[i as int]);
        let item = &items[i];
        let kind = item.get_str("type");
        let is_message = match kind {
            Some(t) => text_eq(t, "message"),
            None => false,
        };
        let is_call = match kind {
            Some(t) => text_eq(t, "function_call"),
            None => false,
        };
        if is_message {
            let parts = match item.get("content") {
                Some(c) => c.as_array(),
                None => None,
            };
            if let Some(parts) = parts {
                append_output_parts_text(parts, &mut content);
            }
        }
        assert(content@ =~= output_text(iv.take(i + 1)));
        if is_call {
            push_item(&mut tool_calls, output_item_to_tool_call(item));
        }
    }
    assert(iv.take(items.len() as int) =~= iv);
    let has_calls = tool_calls.len() > 0;
    proof {
        json::lemma_items_view(tool_calls@);
    }
    let status = match body.get_str("status") {
        Some(s) => s,
        None => "completed",
    };
    let reason = match body.path2("incomplete_details", "reason") {
        Some(v) => v.as_str(),
        None => None,
    };
    let cut = match reason {
        Some(r) => text_eq(r, "max_output_tokens"),
        None => false,
    };
    let finish = if text_eq(status, "incomplete") && cut {
        "length"
    } else if has_calls {
        "tool_calls"
    } else {
        "stop"
    };
    let mut message = new_members();
    push_member(&mut message, "role", text("assistant"));
    push_member(&mut message, "content", Json::Str(content));
    if has_calls {
        push_member(&mut message, "tool_calls", Json::Array(tool_calls));
    }
    assert(json::entries_view(message@) =~= chat_response_message(body@)->Object_0);
    let mut choice = new_members();
    push_member(&mut choice, "index", int_json(0));
    push_member(&mut choice, "message", Json::Object(message));
    push_member(&mut choice, "finish_reason", text(finish));
    let mut choices = new_items();
    push_item(&mut choices, Json::Object(choice));
    let mut resp = new_members();
    push_member(&mut resp, "id", body.get_or("id", text("chatcmpl_resp")));
    push_member(&mut resp, "object", text("chat.completion"));
    push_member(&mut resp, "model", body.get_or("model", text("unknown")));
    let ghost ch = chat_response(body@)->Object_0[3].1->Array_0;
    assert(json::entries_view(choice@) =~= ch[0]->Object_0);
    assert(json::items_view(choices@) =~= ch);
    push_member(&mut resp, "choices", Json::Array(choices));
    if let Some(u) = body.get("usage") {
        let total = token_count_exec(u, "input_tokens") + token_count_exec(u, "output_tokens");
        let mut usage = new_members();
        push_member(&mut usage, "prompt_tokens", u.get_or("input_tokens", int_json(0)));
        push_member(&mut usage, "completion_tokens", u.get_or("output_tokens", int_json(0)));
        push_member(&mut usage, "total_tokens", int_json(total));
        assert(json::entries_view(usage@) =~= chat_usage(u@)->Object_0);
        push_member(&mut resp, "usage", Json::Object(usage));
    }
    assert(json::entries_view(resp@) =~= chat_response(body@)->Object_0);
    Ok(Json::Object(resp))
}

} // verus!
