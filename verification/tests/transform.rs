use responses_chat::{
    chat_to_responses_request, chat_to_responses_response, responses_role_to_chat_role,
    responses_to_chat_request, responses_to_chat_response, Json, JsonNumber,
};

fn s(x: &str) -> Json {
    Json::Str(x.to_string())
}

fn num(n: u64) -> Json {
    Json::Number(JsonNumber::PosInt(n))
}

fn arr(items: Vec<Json>) -> Json {
    Json::Array(items)
}

fn obj(members: Vec<(&str, Json)>) -> Json {
    Json::Object(members.into_iter().map(|(k, v)| (k.to_string(), v)).collect())
}

/// The member `key`, or `null` where there is none (as `serde_json` indexing gives it).
fn at<'a>(j: &'a Json, key: &str) -> &'a Json {
    static NULL: Json = Json::Null;
    j.get(key).unwrap_or(&NULL)
}

fn nth(j: &Json, i: usize) -> &Json {
    static NULL: Json = Json::Null;
    match j {
        Json::Array(items) => items.get(i).unwrap_or(&NULL),
        _ => &NULL,
    }
}

fn text_of(j: &Json) -> Option<&str> {
    j.as_str()
}

#[test]
fn responses_chat_request_basic_mapping() {
    let r = responses_to_chat_request(obj(vec![
        ("model", s("m1")),
        ("instructions", s("sys")),
        ("input", arr(vec![obj(vec![("role", s("user")), ("content", s("hi"))])])),
        ("max_output_tokens", num(10)),
    ]))
    .unwrap();
    assert_eq!(text_of(at(&r, "model")), Some("m1"));
    assert_eq!(text_of(at(nth(at(&r, "messages"), 0), "role")), Some("system"));
}

#[test]
fn chat_responses_response_basic_mapping() {
    let r = chat_to_responses_response(obj(vec![
        ("id", s("c1")),
        ("model", s("m1")),
        (
            "choices",
            arr(vec![obj(vec![
                ("message", obj(vec![("content", s("ok"))])),
                ("finish_reason", s("stop")),
            ])]),
        ),
    ]))
    .unwrap();
    assert_eq!(text_of(at(&r, "id")), Some("c1"));
    assert_eq!(text_of(at(&r, "status")), Some("completed"));
}

#[test]
fn responses_to_chat_request_supports_string_input() {
    let r = responses_to_chat_request(obj(vec![("model", s("m")), ("input", s("hello"))])).unwrap();
    assert_eq!(text_of(at(nth(at(&r, "messages"), 0), "role")), Some("user"));
}

#[test]
fn responses_to_chat_request_maps_function_tools_shape() {
    let r = responses_to_chat_request(obj(vec![
        ("model", s("m")),
        ("input", s("hi")),
        (
            "tools",
            arr(vec![obj(vec![
                ("type", s("function")),
                ("name", s("get_weather")),
                ("description", s("d")),
                ("parameters", obj(vec![("type", s("object"))])),
            ])]),
        ),
        ("tool_choice", obj(vec![("type", s("function")), ("name", s("get_weather"))])),
    ]))
    .unwrap();
    assert_eq!(text_of(at(at(nth(at(&r, "tools"), 0), "function"), "name")), Some("get_weather"));
    assert_eq!(text_of(at(at(at(&r, "tool_choice"), "function"), "name")), Some("get_weather"));
}

#[test]
fn chat_to_responses_request_maps_function_tools_shape() {
    let r = chat_to_responses_request(obj(vec![
        ("model", s("m")),
        ("messages", arr(vec![obj(vec![("role", s("user")), ("content", s("hi"))])])),
        (
            "tools",
            arr(vec![obj(vec![
                ("type", s("function")),
                (
                    "function",
                    obj(vec![
                        ("name", s("get_weather")),
                        ("description", s("d")),
                        ("parameters", obj(vec![("type", s("object"))])),
                    ]),
                ),
            ])]),
        ),
        (
            "tool_choice",
            obj(vec![("type", s("function")), ("function", obj(vec![("name", s("get_weather"))]))]),
        ),
    ]))
    .unwrap();
    assert_eq!(text_of(at(nth(at(&r, "tools"), 0), "name")), Some("get_weather"));
    assert_eq!(text_of(at(at(&r, "tool_choice"), "name")), Some("get_weather"));
}

#[test]
fn responses_to_chat_request_drops_non_function_tools() {
    let r = responses_to_chat_request(obj(vec![
        ("model", s("m")),
        ("input", s("hi")),
        (
            "tools",
            arr(vec![
                obj(vec![
                    ("type", s("function")),
                    ("name", s("get_weather")),
                    ("parameters", obj(vec![("type", s("object"))])),
                ]),
                obj(vec![("type", s("web_search"))]),
            ]),
        ),
        ("tool_choice", obj(vec![("type", s("web_search"))])),
    ]))
    .unwrap();
    assert_eq!(at(&r, "tools").as_array().unwrap().len(), 1);
    assert_eq!(text_of(at(nth(at(&r, "tools"), 0), "type")), Some("function"));
    assert!(r.get("tool_choice").is_none());
}

#[test]
fn responses_to_chat_request_drops_nameless_function_tools() {
    let r = responses_to_chat_request(obj(vec![
        ("model", s("m")),
        ("input", s("hi")),
        (
            "tools",
            arr(vec![
                obj(vec![("type", s("function")), ("description", s("bad tool without name"))]),
                obj(vec![
                    ("type", s("function")),
                    ("name", s("ok_tool")),
                    ("parameters", obj(vec![("type", s("object"))])),
                ]),
            ]),
        ),
    ]))
    .unwrap();
    let tools = at(&r, "tools").as_array().unwrap();
    assert_eq!(tools.len(), 1);
    assert_eq!(tools[0].path2("function", "name").and_then(|v| v.as_str()), Some("ok_tool"));
}

#[test]
fn responses_to_chat_request_maps_developer_role_to_system() {
    let r = responses_to_chat_request(obj(vec![
        ("model", s("m")),
        (
            "input",
            arr(vec![
                obj(vec![
                    ("type", s("message")),
                    ("role", s("developer")),
                    ("content", arr(vec![obj(vec![("type", s("input_text")), ("text", s("be brief"))])])),
                ]),
                obj(vec![
                    ("type", s("message")),
                    ("role", s("user")),
                    ("content", arr(vec![obj(vec![("type", s("input_text")), ("text", s("hi"))])])),
                ]),
            ]),
        ),
    ]))
    .unwrap();
    assert_eq!(text_of(at(nth(at(&r, "messages"), 0), "role")), Some("system"));
    assert_eq!(text_of(at(nth(at(&r, "messages"), 0), "content")), Some("be brief"));
    assert_eq!(text_of(at(nth(at(&r, "messages"), 1), "role")), Some("user"));
}

// ---------------------------------------------------------------------------
// Further cases
// ---------------------------------------------------------------------------

#[test]
fn role_mapping_changes_only_developer() {
    assert_eq!(responses_role_to_chat_role("developer"), "system");
    assert_eq!(responses_role_to_chat_role("user"), "user");
    assert_eq!(responses_role_to_chat_role("system"), "system");
    assert_eq!(responses_role_to_chat_role(responses_role_to_chat_role("developer")), "system");
}

#[test]
fn responses_request_maps_settings_and_reasoning() {
    let r = responses_to_chat_request(obj(vec![
        ("model", s("m")),
        ("stream", Json::Bool(true)),
        ("temperature", Json::Number(JsonNumber::Float("0.5".to_string()))),
        ("top_p", num(1)),
        ("max_output_tokens", num(64)),
        ("reasoning", obj(vec![("effort", s("high")), ("summary", s("auto"))])),
    ]))
    .unwrap();
    let expected = obj(vec![
        ("model", s("m")),
        ("stream", Json::Bool(true)),
        ("temperature", Json::Number(JsonNumber::Float("0.5".to_string()))),
        ("top_p", num(1)),
        ("max_tokens", num(64)),
        ("reasoning_effort", s("high")),
        ("messages", arr(vec![])),
    ]);
    assert_eq!(r, expected);
}

#[test]
fn responses_request_maps_function_calls_and_outputs() {
    let r = responses_to_chat_request(obj(vec![(
        "input",
        arr(vec![
            obj(vec![
                ("type", s("function_call")),
                ("call_id", s("c9")),
                ("name", s("lookup")),
                ("arguments", s("{\"q\":1}")),
            ]),
            obj(vec![("type", s("function_call")), ("name", s(""))]),
            obj(vec![("type", s("function_call_output")), ("call_id", s("c9")), ("output", s("42"))]),
            obj(vec![("type", s("function_call")), ("name", s("noid"))]),
            obj(vec![("type", s("message"))]),
        ]),
    )]))
    .unwrap();
    let expected = obj(vec![(
        "messages",
        arr(vec![
            obj(vec![
                ("role", s("assistant")),
                (
                    "tool_calls",
                    arr(vec![obj(vec![
                        ("id", s("c9")),
                        ("type", s("function")),
                        ("function", obj(vec![("name", s("lookup")), ("arguments", s("{\"q\":1}"))])),
                    ])]),
                ),
            ]),
            obj(vec![("role", s("tool")), ("tool_call_id", s("c9")), ("content", s("42"))]),
            obj(vec![
                ("role", s("assistant")),
                (
                    "tool_calls",
                    arr(vec![obj(vec![
                        ("id", s("call_1")),
                        ("type", s("function")),
                        ("function", obj(vec![("name", s("noid")), ("arguments", s("{}"))])),
                    ])]),
                ),
            ]),
        ]),
    )]);
    assert_eq!(r, expected);
}

#[test]
fn responses_request_object_input_and_content_parts() {
    let r = responses_to_chat_request(obj(vec![("input", obj(vec![("role", s("user"))]))])).unwrap();
    assert_eq!(r, obj(vec![("messages", arr(vec![obj(vec![("role", s("user"))])]))]));
    let r = responses_to_chat_request(obj(vec![(
        "input",
        arr(vec![obj(vec![
            ("role", s("user")),
            (
                "content",
                arr(vec![
                    obj(vec![("text", s("a"))]),
                    obj(vec![("content", s("b"))]),
                    obj(vec![("text", num(3)), ("content", s("skipped"))]),
                    obj(vec![("text", s("c"))]),
                ]),
            ),
        ])]),
    )]))
    .unwrap();
    assert_eq!(text_of(at(nth(at(&r, "messages"), 0), "content")), Some("abc"));
}

#[test]
fn responses_tool_choice_variants() {
    let string_choice = responses_to_chat_request(obj(vec![("tool_choice", s("auto"))])).unwrap();
    assert_eq!(text_of(at(&string_choice, "tool_choice")), Some("auto"));
    let nested = obj(vec![("type", s("function")), ("function", obj(vec![("name", s("f"))]))]);
    let kept = responses_to_chat_request(obj(vec![("tool_choice", nested.clone())])).unwrap();
    assert_eq!(at(&kept, "tool_choice"), &nested);
    let empty_name = responses_to_chat_request(obj(vec![(
        "tool_choice",
        obj(vec![("type", s("function")), ("name", s(""))]),
    )]))
    .unwrap();
    assert!(empty_name.get("tool_choice").is_none());
}

#[test]
fn responses_tools_not_an_array_are_kept() {
    let r = responses_to_chat_request(obj(vec![("tools", s("none"))])).unwrap();
    assert_eq!(text_of(at(&r, "tools")), Some("none"));
    let r = responses_to_chat_request(obj(vec![(
        "tools",
        arr(vec![obj(vec![
            ("type", s("function")),
            ("function", obj(vec![("name", s("nested"))])),
            ("extra", Json::Null),
        ])]),
    )]))
    .unwrap();
    assert_eq!(at(nth(at(&r, "tools"), 0), "extra"), &Json::Null);
    let flat = responses_to_chat_request(obj(vec![(
        "tools",
        arr(vec![obj(vec![("type", s("function")), ("name", s("bare"))])]),
    )]))
    .unwrap();
    let expected_tool = obj(vec![
        ("type", s("function")),
        (
            "function",
            obj(vec![("name", s("bare")), ("description", s("")), ("parameters", obj(vec![]))]),
        ),
    ]);
    assert_eq!(nth(at(&flat, "tools"), 0), &expected_tool);
}

#[test]
fn chat_request_joins_system_messages_and_keeps_others() {
    let user = obj(vec![("role", s("user")), ("content", s("hi"))]);
    let r = chat_to_responses_request(obj(vec![
        ("model", s("m")),
        ("max_tokens", num(5)),
        ("max_completion_tokens", num(7)),
        ("reasoning_effort", s("low")),
        (
            "messages",
            arr(vec![
                obj(vec![("role", s("system")), ("content", s("one"))]),
                user.clone(),
                obj(vec![("role", s("system")), ("content", s("two"))]),
                obj(vec![("role", s("system")), ("content", arr(vec![]))]),
            ]),
        ),
    ]))
    .unwrap();
    let expected = obj(vec![
        ("model", s("m")),
        ("max_output_tokens", num(7)),
        ("reasoning", obj(vec![("effort", s("low"))])),
        ("instructions", s("one\ntwo")),
        ("input", arr(vec![user])),
    ]);
    assert_eq!(r, expected);
}

#[test]
fn chat_request_without_messages_has_empty_input() {
    let r = chat_to_responses_request(obj(vec![("max_tokens", num(5)), ("tool_choice", s("none"))])).unwrap();
    let expected = obj(vec![
        ("max_output_tokens", num(5)),
        ("tool_choice", s("none")),
        ("input", arr(vec![])),
    ]);
    assert_eq!(r, expected);
}

#[test]
fn chat_tools_defaults_and_non_function_tools() {
    let r = chat_to_responses_request(obj(vec![(
        "tools",
        arr(vec![
            obj(vec![("type", s("function")), ("function", obj(vec![]))]),
            obj(vec![("type", s("retrieval"))]),
        ]),
    )]))
    .unwrap();
    let tools = at(&r, "tools");
    assert_eq!(
        nth(tools, 0),
        &obj(vec![
            ("type", s("function")),
            ("name", s("function")),
            ("description", s("")),
            ("parameters", obj(vec![])),
        ])
    );
    assert_eq!(nth(tools, 1), &obj(vec![("type", s("retrieval"))]));
}

#[test]
fn chat_response_length_tool_calls_and_usage() {
    let r = chat_to_responses_response(obj(vec![
        (
            "choices",
            arr(vec![obj(vec![
                (
                    "message",
                    obj(vec![(
                        "tool_calls",
                        arr(vec![
                            obj(vec![
                                ("id", s("t1")),
                                ("function", obj(vec![("name", s("f")), ("arguments", s("{}"))])),
                            ]),
                            obj(vec![]),
                        ]),
                    )]),
                ),
                ("finish_reason", s("length")),
            ])]),
        ),
        (
            "usage",
            obj(vec![
                ("prompt_tokens", num(3)),
                ("completion_tokens", num(4)),
                ("prompt_tokens_details", obj(vec![("cached_tokens", num(2))])),
            ]),
        ),
    ]))
    .unwrap();
    let expected = obj(vec![
        ("id", s("resp_chat")),
        ("object", s("response")),
        ("model", s("unknown")),
        ("status", s("incomplete")),
        (
            "output",
            arr(vec![
                obj(vec![
                    ("type", s("function_call")),
                    ("call_id", s("t1")),
                    ("name", s("f")),
                    ("arguments", s("{}")),
                ]),
                obj(vec![
                    ("type", s("function_call")),
                    ("call_id", s("call_1")),
                    ("name", s("function")),
                    ("arguments", s("{}")),
                ]),
            ]),
        ),
        ("incomplete_details", obj(vec![("reason", s("max_output_tokens"))])),
        (
            "usage",
            obj(vec![
                ("input_tokens", num(3)),
                ("output_tokens", num(4)),
                ("input_tokens_details", obj(vec![("cached_tokens", num(2))])),
            ]),
        ),
    ]);
    assert_eq!(r, expected);
}

#[test]
fn chat_response_without_choices() {
    let r = chat_to_responses_response(obj(vec![("usage", obj(vec![]))])).unwrap();
    let expected = obj(vec![
        ("id", s("resp_chat")),
        ("object", s("response")),
        ("model", s("unknown")),
        ("status", s("completed")),
        ("output", arr(vec![])),
        (
            "usage",
            obj(vec![
                ("input_tokens", num(0)),
                ("output_tokens", num(0)),
                ("input_tokens_details", obj(vec![("cached_tokens", num(0))])),
            ]),
        ),
    ]);
    assert_eq!(r, expected);
}

#[test]
fn responses_response_text_tool_calls_and_usage() {
    let r = responses_to_chat_response(obj(vec![
        ("id", s("r1")),
        ("model", s("m")),
        (
            "output",
            arr(vec![
                obj(vec![
                    ("type", s("message")),
                    (
                        "content",
                        arr(vec![
                            obj(vec![("type", s("output_text")), ("text", s("hel"))]),
                            obj(vec![("type", s("refusal"))]),
                            obj(vec![("type", s("output_text")), ("text", s("lo"))]),
                        ]),
                    ),
                ]),
                obj(vec![("type", s("function_call")), ("call_id", s("k")), ("name", s("g"))]),
                obj(vec![("type", s("reasoning"))]),
            ]),
        ),
        ("usage", obj(vec![("input_tokens", num(10)), ("output_tokens", num(5))])),
    ]))
    .unwrap();
    let expected = obj(vec![
        ("id", s("r1")),
        ("object", s("chat.completion")),
        ("model", s("m")),
        (
            "choices",
            arr(vec![obj(vec![
                ("index", num(0)),
                (
                    "message",
                    obj(vec![
                        ("role", s("assistant")),
                        ("content", s("hello")),
                        (
                            "tool_calls",
                            arr(vec![obj(vec![
                                ("id", s("k")),
                                ("type", s("function")),
                                ("function", obj(vec![("name", s("g")), ("arguments", s("{}"))])),
                            ])]),
                        ),
                    ]),
                ),
                ("finish_reason", s("tool_calls")),
            ])]),
        ),
        (
            "usage",
            obj(vec![("prompt_tokens", num(10)), ("completion_tokens", num(5)), ("total_tokens", num(15))]),
        ),
    ]);
    assert_eq!(r, expected);
}

#[test]
fn responses_response_incomplete_becomes_length() {
    let r = responses_to_chat_response(obj(vec![
        ("status", s("incomplete")),
        ("incomplete_details", obj(vec![("reason", s("max_output_tokens"))])),
    ]))
    .unwrap();
    let choice = nth(at(&r, "choices"), 0);
    assert_eq!(text_of(at(choice, "finish_reason")), Some("length"));
    assert_eq!(text_of(at(&r, "id")), Some("chatcmpl_resp"));
    let other = responses_to_chat_response(obj(vec![
        ("status", s("incomplete")),
        ("incomplete_details", obj(vec![("reason", s("content_filter"))])),
    ]))
    .unwrap();
    assert_eq!(text_of(at(nth(at(&other, "choices"), 0), "finish_reason")), Some("stop"));
}

#[test]
fn responses_response_total_tokens_with_negative_and_missing() {
    let r = responses_to_chat_response(obj(vec![(
        "usage",
        obj(vec![("input_tokens", Json::Number(JsonNumber::NegInt(-4))), ("output_tokens", s("x"))]),
    )]))
    .unwrap();
    let usage = at(&r, "usage");
    assert_eq!(at(usage, "total_tokens"), &Json::Number(JsonNumber::NegInt(-4)));
    assert_eq!(at(usage, "completion_tokens"), &s("x"));
}

#[test]
fn response_round_trip_keeps_text_and_finish() {
    for finish in ["stop", "length"] {
        let chat = obj(vec![
            ("id", s("c1")),
            ("model", s("m1")),
            (
                "choices",
                arr(vec![obj(vec![
                    ("message", obj(vec![("content", s("ok"))])),
                    ("finish_reason", s(finish)),
                ])]),
            ),
        ]);
        let back = responses_to_chat_response(chat_to_responses_response(chat).unwrap()).unwrap();
        let choice = nth(at(&back, "choices"), 0);
        assert_eq!(
            at(choice, "message"),
            &obj(vec![("role", s("assistant")), ("content", s("ok"))])
        );
        assert_eq!(text_of(at(choice, "finish_reason")), Some(finish));
    }
}

#[test]
fn chat_request_round_trip_keeps_settings() {
    let chat = obj(vec![
        ("model", s("m")),
        ("stream", Json::Bool(false)),
        ("temperature", num(0)),
        ("top_p", num(1)),
        ("max_tokens", num(9)),
        ("reasoning_effort", s("medium")),
        (
            "messages",
            arr(vec![
                obj(vec![("role", s("system")), ("content", s("a"))]),
                obj(vec![("role", s("system")), ("content", s("b"))]),
            ]),
        ),
    ]);
    let back = responses_to_chat_request(chat_to_responses_request(chat).unwrap()).unwrap();
    assert_eq!(text_of(at(&back, "model")), Some("m"));
    assert_eq!(at(&back, "stream"), &Json::Bool(false));
    assert_eq!(at(&back, "temperature"), &num(0));
    assert_eq!(at(&back, "top_p"), &num(1));
    assert_eq!(at(&back, "max_tokens"), &num(9));
    assert_eq!(text_of(at(&back, "reasoning_effort")), Some("medium"));
    assert_eq!(
        nth(at(&back, "messages"), 0),
        &obj(vec![("role", s("system")), ("content", s("a\nb"))])
    );
}

#[test]
fn responses_request_round_trip_keeps_instructions_and_input() {
    let req = obj(vec![
        ("model", s("m")),
        ("instructions", s("be kind")),
        ("input", s("hello")),
        ("max_output_tokens", num(3)),
        ("reasoning", obj(vec![("effort", s("low"))])),
    ]);
    let back = chat_to_responses_request(responses_to_chat_request(req).unwrap()).unwrap();
    let expected = obj(vec![
        ("model", s("m")),
        ("max_output_tokens", num(3)),
        ("reasoning", obj(vec![("effort", s("low"))])),
        ("instructions", s("be kind")),
        ("input", arr(vec![obj(vec![("role", s("user")), ("content", s("hello"))])])),
    ]);
    assert_eq!(back, expected);
}

#[test]
fn tool_round_trips() {
    let tool = obj(vec![
        ("type", s("function")),
        ("function", obj(vec![("name", s("w")), ("parameters", obj(vec![("type", s("object"))]))])),
    ]);
    let choice = obj(vec![("type", s("function")), ("function", obj(vec![("name", s("w"))]))]);
    let chat = obj(vec![("tools", arr(vec![tool])), ("tool_choice", choice.clone())]);
    let back = responses_to_chat_request(chat_to_responses_request(chat).unwrap()).unwrap();
    assert_eq!(
        nth(at(&back, "tools"), 0),
        &obj(vec![
            ("type", s("function")),
            (
                "function",
                obj(vec![
                    ("name", s("w")),
                    ("description", s("")),
                    ("parameters", obj(vec![("type", s("object"))])),
                ]),
            ),
        ])
    );
    assert_eq!(at(&back, "tool_choice"), &choice);
}

#[test]
fn responses_response_round_trip_keeps_text() {
    let resp = obj(vec![
        ("id", s("r1")),
        (
            "output",
            arr(vec![
                obj(vec![("type", s("message")), ("content", arr(vec![obj(vec![("text", s("a"))])]))]),
                obj(vec![("type", s("message")), ("content", arr(vec![obj(vec![("text", s("b"))])]))]),
            ]),
        ),
    ]);
    let back = chat_to_responses_response(responses_to_chat_response(resp).unwrap()).unwrap();
    let expected_output = arr(vec![obj(vec![
        ("type", s("message")),
        ("role", s("assistant")),
        ("content", arr(vec![obj(vec![("type", s("output_text")), ("text", s("ab"))])])),
    ])]);
    assert_eq!(at(&back, "output"), &expected_output);
    assert_eq!(text_of(at(&back, "status")), Some("completed"));
    assert_eq!(text_of(at(&back, "id")), Some("r1"));
}

#[test]
fn response_round_trip_keeps_tool_calls() {
    let call = |id: Option<&str>, name: &str, args: &str| {
        let mut members = Vec::new();
        if let Some(id) = id {
            members.push(("id", s(id)));
        }
        members.push(("type", s("function")));
        members.push(("function", obj(vec![("name", s(name)), ("arguments", s(args))])));
        obj(members)
    };
    for finish in ["tool_calls", "stop", "length"] {
        let chat = obj(vec![(
            "choices",
            arr(vec![obj(vec![
                (
                    "message",
                    obj(vec![
                        ("content", s("ok")),
                        ("tool_calls", arr(vec![call(Some("c1"), "f", "{}"), call(None, "g", "{\"a\":1}")])),
                    ]),
                ),
                ("finish_reason", s(finish)),
            ])]),
        )]);
        let back = responses_to_chat_response(chat_to_responses_response(chat).unwrap()).unwrap();
        let choice = nth(at(&back, "choices"), 0);
        let message = at(choice, "message");
        assert_eq!(text_of(at(message, "content")), Some("ok"));
        let calls = at(message, "tool_calls");
        assert_eq!(calls, &arr(vec![call(Some("c1"), "f", "{}"), call(Some("call_1"), "g", "{\"a\":1}")]));
        let expected = if finish == "length" { "length" } else { "tool_calls" };
        assert_eq!(text_of(at(choice, "finish_reason")), Some(expected));
    }
}

#[test]
fn chat_request_round_trip_keeps_messages_tools_and_choice() {
    let msg = |role: &str, content: &str| obj(vec![("role", s(role)), ("content", s(content))]);
    let body = obj(vec![
        ("model", s("m")),
        (
            "messages",
            arr(vec![msg("system", "a"), msg("user", "hi"), msg("system", "b"), msg("assistant", "yo")]),
        ),
        (
            "tools",
            arr(vec![
                obj(vec![
                    ("type", s("function")),
                    ("function", obj(vec![("name", s("f")), ("parameters", obj(vec![("type", s("object"))]))])),
                ]),
                obj(vec![("type", s("function")), ("function", obj(vec![("name", s("g")), ("description", s("d"))]))]),
            ]),
        ),
        ("tool_choice", obj(vec![("type", s("function")), ("function", obj(vec![("name", s("f"))]))])),
    ]);
    let back = responses_to_chat_request(chat_to_responses_request(body).unwrap()).unwrap();
    assert_eq!(
        at(&back, "messages"),
        &arr(vec![msg("system", "a\nb"), msg("user", "hi"), msg("assistant", "yo")])
    );
    assert_eq!(
        at(&back, "tools"),
        &arr(vec![
            obj(vec![
                ("type", s("function")),
                (
                    "function",
                    obj(vec![("name", s("f")), ("description", s("")), ("parameters", obj(vec![("type", s("object"))]))]),
                ),
            ]),
            obj(vec![
                ("type", s("function")),
                ("function", obj(vec![("name", s("g")), ("description", s("d")), ("parameters", obj(vec![]))])),
            ]),
        ])
    );
    assert_eq!(
        at(&back, "tool_choice"),
        &obj(vec![("type", s("function")), ("function", obj(vec![("name", s("f"))]))])
    );
    let back = responses_to_chat_request(
        chat_to_responses_request(obj(vec![("messages", arr(vec![])), ("tool_choice", s("auto"))])).unwrap(),
    )
    .unwrap();
    assert_eq!(text_of(at(&back, "tool_choice")), Some("auto"));
}

#[test]
fn string_instructions_prepend_one_system_message() {
    let input = arr(vec![obj(vec![("role", s("user")), ("content", s("hi"))])]);
    let with = responses_to_chat_request(obj(vec![
        ("model", s("m")),
        ("instructions", s("be brief")),
        ("input", input.clone()),
        ("temperature", num(1)),
    ]))
    .unwrap();
    let without = responses_to_chat_request(obj(vec![
        ("model", s("m")),
        ("input", input.clone()),
        ("temperature", num(1)),
    ]))
    .unwrap();
    let mut expected = vec![obj(vec![("role", s("system")), ("content", s("be brief"))])];
    if let Json::Array(ms) = at(&without, "messages") {
        expected.extend(ms.iter().cloned());
    }
    assert_eq!(at(&with, "messages"), &arr(expected));
    for key in ["model", "temperature", "stream", "tools", "tool_choice"] {
        assert_eq!(at(&with, key), at(&without, key));
    }
    let not_string = responses_to_chat_request(obj(vec![
        ("model", s("m")),
        ("instructions", num(3)),
        ("input", input),
        ("temperature", num(1)),
    ]))
    .unwrap();
    assert_eq!(not_string, without);
}

#[test]
fn response_round_trip_keeps_id_model_and_usage() {
    let chat = obj(vec![
        ("id", s("c7")),
        ("model", s("m7")),
        (
            "choices",
            arr(vec![obj(vec![("message", obj(vec![("content", s("x"))])), ("finish_reason", s("stop"))])]),
        ),
        ("usage", obj(vec![("prompt_tokens", num(4)), ("completion_tokens", num(5))])),
    ]);
    let back = responses_to_chat_response(chat_to_responses_response(chat).unwrap()).unwrap();
    assert_eq!(text_of(at(&back, "id")), Some("c7"));
    assert_eq!(text_of(at(&back, "model")), Some("m7"));
    assert_eq!(
        at(&back, "usage"),
        &obj(vec![("prompt_tokens", num(4)), ("completion_tokens", num(5)), ("total_tokens", num(9))])
    );
    let bare = obj(vec![("choices", arr(vec![]))]);
    let back = responses_to_chat_response(chat_to_responses_response(bare).unwrap()).unwrap();
    assert_eq!(text_of(at(&back, "id")), Some("resp_chat"));
    assert_eq!(text_of(at(&back, "model")), Some("unknown"));
    assert!(back.get("usage").is_none());
}

#[test]
fn tool_conversion_twice_is_once() {
    let tools = arr(vec![
        obj(vec![("type", s("function")), ("name", s("a")), ("parameters", obj(vec![]))]),
        obj(vec![("type", s("web_search"))]),
        obj(vec![("type", s("function")), ("function", obj(vec![("name", s("b"))]))]),
        obj(vec![("type", s("function")), ("name", s(""))]),
    ]);
    let once = responses_to_chat_request(obj(vec![("input", s("hi")), ("tools", tools)])).unwrap();
    let once_tools = at(&once, "tools").clone();
    let twice = responses_to_chat_request(obj(vec![("input", s("hi")), ("tools", once_tools.clone())])).unwrap();
    assert_eq!(at(&twice, "tools"), &once_tools);
    match &once_tools {
        Json::Array(ts) => assert_eq!(ts.len(), 2),
        _ => panic!("tools is not an array"),
    }
}

#[test]
fn content_parts_join_text_or_content() {
    let r = responses_to_chat_request(obj(vec![(
        "input",
        arr(vec![obj(vec![
            ("role", s("user")),
            (
                "content",
                arr(vec![
                    obj(vec![("text", s("be "))]),
                    obj(vec![("content", s("brief"))]),
                    obj(vec![("type", s("input_image"))]),
                ]),
            ),
        ])]),
    )]))
    .unwrap();
    assert_eq!(text_of(at(nth(at(&r, "messages"), 0), "content")), Some("be brief"));
}
