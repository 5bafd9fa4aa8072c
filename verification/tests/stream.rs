use responses_chat::{
    read_chat_block, render_frame, responses_block_to_chat, responses_bytes_to_chat,
    ChatSseInput, ChatToResponsesStream, Json, SseBuffer, SseFrame,
};
use serde_json::Value;

/// Runs the Chat-to-Responses conversion over the chunks, as the proxy does.
fn chat_to_responses(chunks: &[&[u8]]) -> String {
    let mut buffer = SseBuffer::new();
    let mut machine = ChatToResponsesStream::new();
    let mut out = String::new();
    for chunk in chunks {
        for text in machine.on_bytes(&mut buffer, chunk).expect("token total in range") {
            out.push_str(&text);
        }
    }
    out
}

/// Runs the Responses-to-Chat conversion over the chunks, as the proxy does.
fn responses_to_chat(chunks: &[&[u8]]) -> String {
    let mut buffer = SseBuffer::new();
    let mut out = String::new();
    for chunk in chunks {
        for text in responses_bytes_to_chat(&mut buffer, chunk) {
            out.push_str(&text);
        }
    }
    out
}

#[test]
fn chat_sse_to_responses_sse_maps_text_delta() {
    let input = "data: {\"id\":\"c1\",\"model\":\"m1\",\"choices\":[{\"delta\":{\"content\":\"hi\"}}]}\n\n\
data: {\"id\":\"c1\",\"model\":\"m1\",\"choices\":[{\"delta\":{},\"finish_reason\":\"stop\"}],\"usage\":{\"prompt_tokens\":2,\"completion_tokens\":1}}\n\n\
data: [DONE]\n\n";
    let merged = chat_to_responses(&[input.as_bytes()]);
    assert!(merged.contains("event: response.created"));
    assert!(merged.contains("event: response.output_item.added"));
    assert!(merged.contains("event: response.content_part.added"));
    assert!(merged.contains("event: response.output_text.delta"));
    assert!(merged.contains("\"delta\":\"hi\""));
    assert!(merged.contains("event: response.completed"));
    assert!(merged.contains("\"id\":\"c1\""));
}

#[test]
fn responses_sse_to_chat_sse_maps_text_delta() {
    let input = "event: response.output_text.delta\n\
data: {\"type\":\"response.output_text.delta\",\"delta\":\"ok\"}\n\n\
event: response.completed\n\
data: {\"type\":\"response.completed\",\"response\":{\"status\":\"completed\",\"usage\":{\"input_tokens\":3,\"output_tokens\":1}}}\n\n\
data: [DONE]\n\n";
    let merged = responses_to_chat(&[input.as_bytes()]);
    assert!(merged.contains("\"content\":\"ok\""));
    assert!(merged.contains("\"finish_reason\":\"stop\""));
    assert!(merged.contains("data: [DONE]"));
}

// ---------------------------------------------------------------------------
// Further cases
// ---------------------------------------------------------------------------

#[test]
fn chat_stream_events_in_order_and_completed_once() {
    let input = "data: {\"id\":\"c2\",\"model\":\"m2\",\"choices\":[{\"delta\":{\"content\":\"a\"}}]}\n\n\
data: {\"choices\":[{\"delta\":{\"content\":\"b\"}}]}\n\n\
data: {\"choices\":[{\"delta\":{},\"finish_reason\":\"length\"}],\"usage\":{\"prompt_tokens\":5,\"completion_tokens\":6}}\n\n\
data: [DONE]\n\n";
    let merged = chat_to_responses(&[input.as_bytes()]);
    let names: Vec<&str> = merged
        .lines()
        .filter_map(|l| l.strip_prefix("event: "))
        .collect();
    assert_eq!(
        names,
        vec![
            "response.created",
            "response.output_item.added",
            "response.content_part.added",
            "response.output_text.delta",
            "response.output_text.delta",
            "response.content_part.done",
            "response.output_item.done",
            "response.completed",
        ]
    );
    assert!(merged.ends_with("data: [DONE]\n\n"));
    assert!(merged.contains("\"status\":\"incomplete\""));
    assert!(merged.contains("\"text\":\"ab\""));
    assert!(merged.contains("\"total_tokens\":11"));
    assert!(merged.contains("\"model\":\"m2\""));
}

#[test]
fn chat_stream_done_without_finish_completes() {
    let merged = chat_to_responses(&[b"data: {\"choices\":[{\"delta\":{\"content\":\"x\"}}]}\n\ndata: [DONE]\n\n"]);
    let completed = merged.matches("event: response.completed").count();
    assert_eq!(completed, 1);
    assert!(merged.contains("\"id\":\"resp_chat_stream\""));
    assert!(merged.contains("\"input_tokens\":0"));
}

#[test]
fn chat_stream_split_chunks_and_crlf() {
    let whole = "data: {\"choices\":[{\"delta\":{\"content\":\"h\u{e9}\"}}]}\r\n\r\ndata: [DONE]\r\n\r\n";
    let bytes = whole.as_bytes();
    let at_once = chat_to_responses(&[bytes]);
    let pieces: Vec<&[u8]> = bytes.chunks(3).collect();
    let split = chat_to_responses(&pieces);
    assert_eq!(at_once, split);
    assert!(at_once.contains("\"delta\":\"h\u{e9}\""));
    assert!(at_once.contains("data: [DONE]"));
}

#[test]
fn chat_stream_tool_calls() {
    let input = "data: {\"choices\":[{\"delta\":{\"tool_calls\":[{\"id\":\"t1\",\"function\":{\"name\":\"f\",\"arguments\":\"{\\\"a\\\"\"}},{}]}}]}\n\n\
data: {\"choices\":[{\"delta\":{\"tool_calls\":[{\"function\":{\"arguments\":\":1}\"}}]}}]}\n\n\
data: {\"choices\":[{\"delta\":{\"tool_calls\":[{\"function\":{\"name\":\"g\"}}]}}]}\n\n\
data: [DONE]\n\n";
    let merged = chat_to_responses(&[input.as_bytes()]);
    assert_eq!(merged.matches("event: response.output_item.added").count(), 1);
    assert_eq!(merged.matches("event: response.function_call_arguments.delta").count(), 2);
    assert!(merged.contains("\"call_id\":\"t1\""));
    assert!(!merged.contains("\"call_id\":\"call_1\""));
    let completed = completed_response(&merged);
    let output = completed["output"].as_array().unwrap();
    assert_eq!(output.len(), 2);
    assert_eq!(output[0]["type"], "message");
    assert_eq!(output[1]["type"], "function_call");
    assert_eq!(output[1]["call_id"], "t1");
    assert_eq!(output[1]["name"], "f");
    assert_eq!(output[1]["arguments"], "{\"a\":1}");
}

/// The `response` of the one `response.completed` event of a converted stream.
fn completed_response(merged: &str) -> Value {
    let data = merged
        .split("\n\n")
        .find_map(|b| b.strip_prefix("event: response.completed\ndata: "))
        .unwrap();
    let v: Value = serde_json::from_str(data).unwrap();
    v["response"].clone()
}

#[test]
fn chat_stream_tool_calls_finish_completes_with_function_call_output() {
    let input = "data: {\"choices\":[{\"delta\":{\"tool_calls\":[{\"id\":\"call_a\",\"function\":{\"name\":\"f\",\"arguments\":\"{}\"}}]}}]}\n\n\
data: {\"choices\":[{\"delta\":{},\"finish_reason\":\"tool_calls\"}]}\n\n\
data: [DONE]\n\n";
    let merged = chat_to_responses(&[input.as_bytes()]);
    let names: Vec<&str> = merged
        .lines()
        .filter_map(|l| l.strip_prefix("event: "))
        .collect();
    assert_eq!(
        names,
        vec![
            "response.created",
            "response.output_item.added",
            "response.function_call_arguments.delta",
            "response.completed",
        ]
    );
    let added: Value = serde_json::from_str(
        merged
            .split("\n\n")
            .find_map(|b| b.strip_prefix("event: response.output_item.added\ndata: "))
            .unwrap(),
    )
    .unwrap();
    assert_eq!(added["item"]["type"], "function_call");
    assert_eq!(added["item"]["call_id"], "call_a");
    assert_eq!(added["item"]["name"], "f");
    assert!(merged.contains("\"delta\":\"{}\""));
    let completed = completed_response(&merged);
    assert_eq!(completed["status"], "completed");
    let output = completed["output"].as_array().unwrap();
    assert_eq!(output.len(), 2);
    assert_eq!(output[1]["type"], "function_call");
    assert_eq!(output[1]["call_id"], "call_a");
    assert_eq!(output[1]["name"], "f");
    assert_eq!(output[1]["arguments"], "{}");
    assert!(merged.ends_with("data: [DONE]\n\n"));
}

#[test]
fn chat_stream_two_calls_in_order() {
    let input = "data: {\"choices\":[{\"delta\":{\"tool_calls\":[{\"id\":\"a\",\"function\":{\"name\":\"f\",\"arguments\":\"\"}}]}}]}\n\n\
data: {\"choices\":[{\"delta\":{\"tool_calls\":[{\"id\":\"a\",\"function\":{\"arguments\":\"{\\\"x\\\":1}\"}}]}}]}\n\n\
data: {\"choices\":[{\"delta\":{\"tool_calls\":[{\"id\":\"b\",\"function\":{\"arguments\":\"{}\"}}]}}]}\n\n\
data: {\"choices\":[{\"delta\":{},\"finish_reason\":\"tool_calls\"}]}\n\n";
    let merged = chat_to_responses(&[input.as_bytes()]);
    assert_eq!(merged.matches("event: response.output_item.added").count(), 2);
    let completed = completed_response(&merged);
    let output = completed["output"].as_array().unwrap();
    assert_eq!(output.len(), 3);
    assert_eq!(output[1]["call_id"], "a");
    assert_eq!(output[1]["arguments"], "{\"x\":1}");
    assert_eq!(output[2]["call_id"], "b");
    assert_eq!(output[2]["name"], "function");
    assert_eq!(output[2]["arguments"], "{}");
}

#[test]
fn chat_stream_text_only_completes_with_message_alone() {
    let merged = chat_to_responses(&[b"data: {\"choices\":[{\"delta\":{\"content\":\"x\"},\"finish_reason\":\"stop\"}]}\n\n"]);
    let completed = completed_response(&merged);
    let output = completed["output"].as_array().unwrap();
    assert_eq!(output.len(), 1);
    assert_eq!(output[0]["content"][0]["text"], "x");
}

#[test]
fn chat_stream_skips_blocks_without_data_and_bad_json() {
    let input = ": keep-alive\n\nevent: ping\n\ndata: not json\n\ndata:  [DONE] \n\n";
    let merged = chat_to_responses(&[input.as_bytes()]);
    assert!(!merged.contains("response.created"));
    assert!(merged.contains("event: response.completed"));
    assert!(merged.ends_with("data: [DONE]\n\n"));
}

#[test]
fn responses_stream_tool_call_events() {
    let input = "event: response.output_item.added\n\
data: {\"item\":{\"type\":\"function_call\",\"call_id\":\"k1\",\"name\":\"g\"}}\n\n\
event: response.function_call_arguments.delta\n\
data: {\"delta\":\"{}\"}\n\n\
event: response.in_progress\n\
data: {}\n\n\
event:  response.completed \n\
data: {\"response\":{}}\n\n";
    let merged = responses_to_chat(&[input.as_bytes()]);
    let chunks: Vec<Value> = merged
        .split("\n\n")
        .filter_map(|b| b.strip_prefix("data: "))
        .map(|d| serde_json::from_str(d).unwrap())
        .collect();
    assert_eq!(chunks.len(), 3);
    let call = &chunks[0]["choices"][0]["delta"]["tool_calls"][0];
    assert_eq!(call["id"], "k1");
    assert_eq!(call["function"]["name"], "g");
    assert_eq!(call["function"]["arguments"], "");
    assert_eq!(chunks[1]["choices"][0]["delta"]["tool_calls"][0]["function"]["arguments"], "{}");
    assert_eq!(chunks[2]["choices"][0]["finish_reason"], "stop");
    assert_eq!(chunks[2]["usage"]["prompt_tokens"], 0);
}

#[test]
fn responses_stream_message_item_gives_no_tool_call() {
    let input = "event: response.output_item.added\n\
data: {\"type\":\"response.output_item.added\",\"item\":{\"type\":\"message\",\"id\":\"msg_1\",\"role\":\"assistant\",\"content\":[]}}\n\n\
event: response.output_item.added\n\
data: {\"item\":{\"call_id\":\"k2\"}}\n\n";
    let merged = responses_to_chat(&[input.as_bytes()]);
    assert!(!merged.contains("tool_calls"));
    assert_eq!(merged, "");
}

#[test]
fn responses_stream_uses_last_event_and_data_lines() {
    let input = "event: ignored\nevent: response.output_text.delta\ndata: {\"delta\":\"no\"}\ndata: {\"delta\":\"yes\"}\n\n";
    let merged = responses_to_chat(&[input.as_bytes()]);
    assert!(merged.contains("\"content\":\"yes\""));
    assert!(!merged.contains("\"content\":\"no\""));
}

#[test]
fn buffer_keeps_incomplete_block() {
    let mut buffer = SseBuffer::new();
    buffer.push_bytes(b"data: a\n");
    assert!(buffer.take_block().is_none());
    buffer.push_bytes(b"\ndata: b");
    assert_eq!(buffer.take_block(), Some(b"data: a".to_vec()));
    assert!(buffer.take_block().is_none());
    buffer.push_bytes(b"\r\n\r\n");
    assert_eq!(buffer.take_block(), Some(b"data: b".to_vec()));
}

#[test]
fn block_text_decoding_is_lossy_for_invalid_utf8() {
    let block = b"data: \xff\xfeok".to_vec();
    match read_chat_block(&block) {
        Some(ChatSseInput::Data(d)) => assert_eq!(d, "\u{fffd}\u{fffd}ok"),
        other => panic!("unexpected {:?}", other),
    }
    match read_chat_block(&b"data:\t[DONE]\r".to_vec()) {
        Some(ChatSseInput::Done) => {}
        other => panic!("unexpected {:?}", other),
    }
}

#[test]
fn done_marker_trimmed_of_unicode_whitespace() {
    let merged = chat_to_responses(&["data: \u{2003}[DONE]\u{3000}\u{a0}\n\n".as_bytes()]);
    assert!(merged.ends_with("data: [DONE]\n\n"));
    let merged = chat_to_responses(&["data: [DONE]x\n\n".as_bytes()]);
    assert!(!merged.contains("[DONE]"));
}

#[test]
fn chat_stream_created_once_at_first_chunk() {
    let input = "data: [DONE]\n\n\
data: {\"id\":\"c9\",\"model\":\"m9\",\"choices\":[{\"delta\":{\"content\":\"a\"}}]}\n\n\
data: {\"id\":\"c10\",\"choices\":[{\"delta\":{\"content\":\"b\"}}]}\n\n";
    let merged = chat_to_responses(&[input.as_bytes()]);
    assert_eq!(merged.matches("event: response.created").count(), 1);
    let first_after_done = merged
        .split("\n\n")
        .filter(|b| !b.is_empty())
        .skip_while(|b| !b.starts_with("event: response.created"))
        .next()
        .unwrap();
    let v: Value = serde_json::from_str(first_after_done.strip_prefix("event: response.created\ndata: ").unwrap()).unwrap();
    assert_eq!(v["response"]["id"], "c9");
    assert_eq!(v["response"]["model"], "m9");
    assert_eq!(v["response"]["status"], "in_progress");
    assert_eq!(v["response"]["output"], Value::Array(vec![]));
    let none = chat_to_responses(&[b"data: not json\n\ndata: [DONE]\n\n"]);
    assert_eq!(none.matches("event: response.created").count(), 0);
}

#[test]
fn chat_stream_text_events_one_delta_per_piece() {
    let input = "data: {\"choices\":[{\"delta\":{\"content\":\"a\"}}]}\n\n\
data: {\"choices\":[{\"delta\":{\"tool_calls\":[{\"id\":\"t\",\"function\":{\"name\":\"f\"}}]}}]}\n\n\
data: {\"choices\":[{\"delta\":{\"content\":\"b\"}}]}\n\n\
data: {\"choices\":[{\"delta\":{\"content\":\"c\"},\"finish_reason\":\"stop\"}]}\n\n";
    let merged = chat_to_responses(&[input.as_bytes()]);
    let text_events: Vec<String> = merged
        .split("\n\n")
        .filter_map(|b| {
            let (name, data) = b.strip_prefix("event: ")?.split_once("\ndata: ")?;
            let v: Value = serde_json::from_str(data).ok()?;
            match name {
                "response.output_text.delta" => Some(format!("delta:{}", v["delta"].as_str()?)),
                "response.content_part.added" => Some("part".to_string()),
                "response.output_item.added" if v["item"]["type"] == "message" => Some("item".to_string()),
                _ => None,
            }
        })
        .collect();
    assert_eq!(text_events, vec!["item", "part", "delta:a", "delta:b", "delta:c"]);
}

#[test]
fn frame_text_shapes() {
    let event = SseFrame::Event { name: "response.created".to_string(), data: Json::Null };
    assert_eq!(event.to_text("{}"), "event: response.created\ndata: {}\n\n");
    assert_eq!(SseFrame::Data(Json::Null).to_text("{\"a\":1}"), "data: {\"a\":1}\n\n");
    assert_eq!(SseFrame::Done.to_text(""), "data: [DONE]\n\n");
}

#[test]
fn chat_block_with_overflowing_usage_gives_none() {
    let mut machine = ChatToResponsesStream::new();
    let block = b"data: {\"choices\":[{\"delta\":{},\"finish_reason\":\"stop\"}],\"usage\":{\"prompt_tokens\":9223372036854775807,\"completion_tokens\":1}}".to_vec();
    assert!(machine.on_block(&block).is_none());
    let texts = machine.on_block(&b"data: {\"choices\":[{\"delta\":{\"content\":\"x\"}}]}".to_vec()).unwrap();
    assert!(texts[0].starts_with("event: response.created\n"));
    assert!(machine.on_block(&b": comment".to_vec()).unwrap().is_empty());
    assert!(machine.on_block(&b"data: not json".to_vec()).unwrap().is_empty());
}

#[test]
fn responses_block_texts() {
    assert_eq!(responses_block_to_chat(&b"data: [DONE]".to_vec()), Some("data: [DONE]\n\n".to_string()));
    assert_eq!(responses_block_to_chat(&b"event: response.in_progress\ndata: {}".to_vec()), None);
    assert_eq!(responses_block_to_chat(&b"event: response.output_text.delta\ndata: {oops".to_vec()), None);
    let t = responses_block_to_chat(&b"event: response.output_text.delta\ndata: {\"delta\":\"d\"}".to_vec()).unwrap();
    assert!(t.starts_with("data: {") && t.ends_with("}\n\n"));
    let v: Value = serde_json::from_str(t.strip_prefix("data: ").unwrap().trim_end()).unwrap();
    assert_eq!(v["choices"][0]["delta"]["content"], "d");
}

#[test]
fn responses_stream_split_anywhere_is_the_same() {
    let whole = "event: response.output_text.delta\r\ndata: {\"delta\":\"h\u{e9}llo\"}\r\n\r\nevent: response.completed\ndata: {\"response\":{\"usage\":{\"input_tokens\":1}}}\n\ndata: [DONE]\n\n";
    let bytes = whole.as_bytes();
    let at_once = responses_to_chat(&[bytes]);
    for size in 1..8 {
        let pieces: Vec<&[u8]> = bytes.chunks(size).collect();
        assert_eq!(responses_to_chat(&pieces), at_once);
    }
    assert!(at_once.contains("h\u{e9}llo"));
    assert!(at_once.ends_with("data: [DONE]\n\n"));
}

#[test]
fn rendered_frame_is_event_and_json() {
    let t = render_frame(&SseFrame::Event {
        name: "response.created".to_string(),
        data: Json::Object(vec![("a".to_string(), Json::Str("b\"c".to_string()))]),
    });
    assert_eq!(t, "event: response.created\ndata: {\"a\":\"b\\\"c\"}\n\n");
}
