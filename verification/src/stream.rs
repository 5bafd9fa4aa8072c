use crate::json::{
    self, int_json, new_items, new_members, new_object, push_item, push_member, text, Json,
    JsonV,
};
use crate::response::{self, get_array};
use crate::sse::{ChatSseInput, ResponsesSseInput};
use crate::text::text_eq;
use vstd::prelude::*;

verus! {

/// One event to send on a converted stream: a named event with a JSON
/// payload, an unnamed JSON payload, or the end marker `[DONE]`.
#[derive(Debug)]
pub enum SseFrame {
    Event { name: String, data: Json },
    Data(Json),
    Done,
}

pub enum FrameV {
    Event { name: Seq<char>, data: JsonV },
    Data(JsonV),
    Done,
}

impl View for SseFrame {
    type V = FrameV;

    open spec fn view(&self) -> FrameV {
        match self {
            SseFrame::Event { name, data } => FrameV::Event { name: name@, data: data@ },
            SseFrame::Data(d) => FrameV::Data(d@),
            SseFrame::Done => FrameV::Done,
        }
    }
}

/// The event-stream text of the frame `f`, with `payload` the JSON text of
/// its data: `event:` and `data:` lines for a named event, one `data:` line
/// for an unnamed one, `data: [DONE]` for the end marker; each frame ends
/// with a blank line.
pub open spec fn frame_text(f: FrameV, payload: Seq<char>) -> Seq<char> {
    match f {
        FrameV::Event { name, data: _ } => "event: "@ + name + "\ndata: "@ + payload + "\n\n"@,
        FrameV::Data(_) => "data: "@ + payload + "\n\n"@,
        FrameV::Done => "data: [DONE]\n\n"@,
    }
}

impl SseFrame {
    /// The event-stream text of this frame, with `payload` the JSON text of
    /// its data.
    pub fn to_text(&self, payload: &str) -> (r: String)
        ensures
            r@ == frame_text(self@, payload@),
    {
        match self {
            SseFrame::Event { name, data: _ } => {
                let mut t = "event: ".to_owned();
                t.append(name.as_str());
                t.append("\ndata: ");
                t.append(payload);
                t.append("\n\n");
                t
            },
            SseFrame::Data(_) => {
                let mut t = "data: ".to_owned();
                t.append(payload);
                t.append("\n\n");
                t
            },
            SseFrame::Done => "data: [DONE]\n\n".to_owned(),
        }
    }
}

pub open spec fn frames_view(fs: Seq<SseFrame>) -> Seq<FrameV> {
    fs.map_values(|f: SseFrame| f@)
}

fn push_frame(fs: &mut Vec<SseFrame>, f: SseFrame)
    ensures
        frames_view(final(fs)@) == frames_view(old(fs)@).push(f@),
{
    let ghost before = fs@;
    fs.push(f);
    assert(frames_view(fs@) =~= frames_view(before).push(f@));
}

fn event_frame(name: &str, data: Json) -> (r: SseFrame)
    ensures
        r@ == (FrameV::Event { name: name@, data: data@ }),
{
    SseFrame::Event { name: name.to_owned(), data }
}

// ---------------------------------------------------------------------------
// Chat stream -> Responses stream
// ---------------------------------------------------------------------------

/// A function call streamed in a Chat stream: its id, its name, and the
/// arguments streamed for it so far.
struct StreamedCall {
    call_id: String,
    name: String,
    arguments: String,
}

/// The model of a streamed function call.
pub struct CallV {
    pub call_id: Seq<char>,
    pub name: Seq<char>,
    pub arguments: Seq<char>,
}

impl View for StreamedCall {
    type V = CallV;

    closed spec fn view(&self) -> CallV {
        CallV { call_id: self.call_id@, name: self.name@, arguments: self.arguments@ }
    }
}

spec fn calls_view(cs: Seq<StreamedCall>) -> Seq<CallV> {
    cs.map_values(|c: StreamedCall| c@)
}

/// The state of a Chat-to-Responses stream conversion.
pub struct ChatToResponsesStream {
    response_id: String,
    model: String,
    created_sent: bool,
    text_item_sent: bool,
    text_done_sent: bool,
    completed_sent: bool,
    output_text: String,
    calls: Vec<StreamedCall>,
}

pub struct ChatStreamV {
    pub response_id: Seq<char>,
    pub model: Seq<char>,
    pub created_sent: bool,
    pub text_item_sent: bool,
    pub text_done_sent: bool,
    pub completed_sent: bool,
    pub output_text: Seq<char>,
    pub calls: Seq<CallV>,
}

impl View for ChatToResponsesStream {
    type V = ChatStreamV;

    closed spec fn view(&self) -> ChatStreamV {
        ChatStreamV {
            response_id: self.response_id@,
            model: self.model@,
            created_sent: self.created_sent,
            text_item_sent: self.text_item_sent,
            text_done_sent: self.text_done_sent,
            completed_sent: self.completed_sent,
            output_text: self.output_text@,
            calls: calls_view(self.calls@),
        }
    }
}

/// The state before any block of the stream.
pub open spec fn chat_stream_start() -> ChatStreamV {
    ChatStreamV {
        response_id: "resp_chat_stream"@,
        model: "unknown"@,
        created_sent: false,
        text_item_sent: false,
        text_done_sent: false,
        completed_sent: false,
        output_text: ""@,
        calls: seq![],
    }
}

/// The id of the one message item of the converted stream.
pub open spec fn message_id() -> Seq<char> {
    "msg_chat_0"@
}

pub open spec fn output_text_part(t: Seq<char>) -> JsonV {
    JsonV::Object(seq![("type"@, json::str_v("output_text"@)), ("text"@, json::str_v(t))])
}

/// The message item of the converted stream, with the text `t`.
pub open spec fn stream_message(t: Seq<char>) -> JsonV {
    JsonV::Object(
        seq![
            ("id"@, json::str_v(message_id())),
            ("type"@, json::str_v("message"@)),
            ("role"@, json::str_v("assistant"@)),
            ("content"@, JsonV::Array(seq![output_text_part(t)])),
        ],
    )
}

/// The output item of a streamed function call.
pub open spec fn call_item(c: CallV) -> JsonV {
    JsonV::Object(
        seq![
            ("type"@, json::str_v("function_call"@)),
            ("call_id"@, json::str_v(c.call_id)),
            ("name"@, json::str_v(c.name)),
            ("arguments"@, json::str_v(c.arguments)),
        ],
    )
}

/// The output items of the streamed function calls, in order.
pub open spec fn calls_items(cs: Seq<CallV>) -> Seq<JsonV> {
    cs.map_values(|c: CallV| call_item(c))
}

/// The `response.completed` event for state `s`: its output is the message
/// item, then one function call item per streamed call.
pub open spec fn completed_frame(s: ChatStreamV, status: Seq<char>, input: int, output: int) -> FrameV {
    FrameV::Event {
        name: "response.completed"@,
        data: JsonV::Object(
            seq![
                ("type"@, json::str_v("response.completed"@)),
                ("response"@, JsonV::Object(seq![
                    ("id"@, json::str_v(s.response_id)),
                    ("object"@, json::str_v("response"@)),
                    ("model"@, json::str_v(s.model)),
                    ("status"@, json::str_v(status)),
                    ("output"@, JsonV::Array(seq![stream_message(s.output_text)] + calls_items(s.calls))),
                    ("usage"@, JsonV::Object(seq![
                        ("input_tokens"@, json::int_v(input as i64)),
                        ("output_tokens"@, json::int_v(output as i64)),
                        ("total_tokens"@, json::int_v((input + output) as i64)),
                    ])),
                ])),
            ],
        ),
    }
}

/// The `response.created` event for state `s`.
pub open spec fn created_frame(s: ChatStreamV) -> FrameV {
    FrameV::Event {
        name: "response.created"@,
        data: JsonV::Object(
            seq![
                ("type"@, json::str_v("response.created"@)),
                ("response"@, JsonV::Object(seq![
                    ("id"@, json::str_v(s.response_id)),
                    ("object"@, json::str_v("response"@)),
                    ("model"@, json::str_v(s.model)),
                    ("status"@, json::str_v("in_progress"@)),
                    ("output"@, JsonV::Array(seq![])),
                ])),
            ],
        ),
    }
}

/// The events that open the message item before its first text.
pub open spec fn text_opened_frames() -> Seq<FrameV> {
    seq![
        FrameV::Event {
            name: "response.output_item.added"@,
            data: JsonV::Object(seq![
                ("type"@, json::str_v("response.output_item.added"@)),
                ("output_index"@, json::int_v(0)),
                ("item"@, JsonV::Object(seq![
                    ("id"@, json::str_v(message_id())),
                    ("type"@, json::str_v("message"@)),
                    ("status"@, json::str_v("in_progress"@)),
                    ("role"@, json::str_v("assistant"@)),
                    ("content"@, JsonV::Array(seq![])),
                ])),
            ]),
        },
        FrameV::Event {
            name: "response.content_part.added"@,
            data: JsonV::Object(seq![
                ("type"@, json::str_v("response.content_part.added"@)),
                ("item_id"@, json::str_v(message_id())),
                ("output_index"@, json::int_v(0)),
                ("content_index"@, json::int_v(0)),
                ("part"@, output_text_part(""@)),
            ]),
        },
    ]
}

/// The event that carries a piece `c` of the message text.
pub open spec fn text_delta_frame(c: Seq<char>) -> FrameV {
    FrameV::Event {
        name: "response.output_text.delta"@,
        data: JsonV::Object(
            seq![
                ("type"@, json::str_v("response.output_text.delta"@)),
                ("item_id"@, json::str_v(message_id())),
                ("output_index"@, json::int_v(0)),
                ("content_index"@, json::int_v(0)),
                ("delta"@, json::str_v(c)),
            ],
        ),
    }
}

/// The events that close the message item with its whole text `t`.
pub open spec fn text_closed_frames(t: Seq<char>) -> Seq<FrameV> {
    seq![
        FrameV::Event {
            name: "response.content_part.done"@,
            data: JsonV::Object(seq![
                ("type"@, json::str_v("response.content_part.done"@)),
                ("item_id"@, json::str_v(message_id())),
                ("output_index"@, json::int_v(0)),
                ("content_index"@, json::int_v(0)),
            ]),
        },
        FrameV::Event {
            name: "response.output_item.done"@,
            data: JsonV::Object(seq![
                ("type"@, json::str_v("response.output_item.done"@)),
                ("output_index"@, json::int_v(0)),
                ("item"@, JsonV::Object(seq![
                    ("id"@, json::str_v(message_id())),
                    ("type"@, json::str_v("message"@)),
                    ("status"@, json::str_v("completed"@)),
                    ("role"@, json::str_v("assistant"@)),
                    ("content"@, JsonV::Array(seq![output_text_part(t)])),
                ])),
            ]),
        },
    ]
}

/// The string at `/function/<key>` of a tool call, or `""`.
pub open spec fn call_function_str(call: JsonV, key: Seq<char>) -> Seq<char> {
    match json::path2(call, "function"@, key) {
        Some(v) => match v.as_str() {
            Some(s) => s,
            None => ""@,
        },
        None => ""@,
    }
}

/// `s`, or `default` where `s` is empty.
pub open spec fn or_default(s: Seq<char>, default: Seq<char>) -> Seq<char> {
    if s.len() == 0 {
        default
    } else {
        s
    }
}

/// The event that adds a function call item with id `id` and name `name`.
pub open spec fn call_added_frame(id: Seq<char>, name: Seq<char>) -> FrameV {
    FrameV::Event {
        name: "response.output_item.added"@,
        data: JsonV::Object(seq![
            ("type"@, json::str_v("response.output_item.added"@)),
            ("item"@, JsonV::Object(seq![
                ("type"@, json::str_v("function_call"@)),
                ("call_id"@, json::str_v(id)),
                ("name"@, json::str_v(name)),
                ("arguments"@, json::str_v(""@)),
            ])),
        ]),
    }
}

/// The event that carries a piece `args` of a call's arguments, if it is
/// not empty.
pub open spec fn call_arguments_frames(args: Seq<char>) -> Seq<FrameV> {
    if args.len() == 0 {
        seq![]
    } else {
        seq![
            FrameV::Event {
                name: "response.function_call_arguments.delta"@,
                data: JsonV::Object(seq![
                    ("type"@, json::str_v("response.function_call_arguments.delta"@)),
                    ("delta"@, json::str_v(args)),
                ]),
            },
        ]
    }
}

/// Whether a tool call delta with id `id` goes on with the last call of
/// `calls`: there is one, and the id is empty or that call's.
pub open spec fn continues_call(calls: Seq<CallV>, id: Seq<char>) -> bool {
    calls.len() > 0 && (id.len() == 0 || id == calls.last().call_id)
}

/// The calls and events after one streamed tool call delta. One whose id,
/// name and arguments are all empty gives nothing. One that goes on with
/// the last call adds its arguments to that call's and sends them. Any other
/// starts a call (id `call_1` and name `function` where they are empty):
/// its item is added, then its arguments, if any, are sent.
pub open spec fn chat_tool_call(calls: Seq<CallV>, call: JsonV) -> (Seq<CallV>, Seq<FrameV>) {
    let id = match json::get_str(call, "id"@) {
        Some(s) => s,
        None => ""@,
    };
    let name = call_function_str(call, "name"@);
    let args = call_function_str(call, "arguments"@);
    if id.len() == 0 && name.len() == 0 && args.len() == 0 {
        (calls, seq![])
    } else if continues_call(calls, id) {
        let last = calls.last();
        (
            calls.drop_last().push(CallV { arguments: last.arguments + args, ..last }),
            call_arguments_frames(args),
        )
    } else {
        let c = CallV {
            call_id: or_default(id, "call_1"@),
            name: or_default(name, "function"@),
            arguments: args,
        };
        (calls.push(c), seq![call_added_frame(c.call_id, c.name)] + call_arguments_frames(args))
    }
}

/// The calls and events after the tool call deltas `ds`, one after another.
pub open spec fn chat_tool_calls(calls: Seq<CallV>, ds: Seq<JsonV>) -> (Seq<CallV>, Seq<FrameV>)
    decreases ds.len(),
{
    if ds.len() == 0 {
        (calls, seq![])
    } else {
        let (c1, f1) = chat_tool_calls(calls, ds.drop_last());
        let (c2, f2) = chat_tool_call(c1, ds.last());
        (c2, f1 + f2)
    }
}

/// The first choice of a chunk (`/choices/0`).
pub open spec fn chunk_choice(v: JsonV) -> Option<JsonV> {
    match v.get("choices"@) {
        Some(c) => json::at_zero(c),
        None => None,
    }
}

/// The `delta` of the first choice of a chunk, or `{}`.
pub open spec fn chunk_delta(v: JsonV) -> JsonV {
    json::opt_or(
        match chunk_choice(v) {
            Some(ch) => ch.get("delta"@),
            None => None,
        },
        json::empty_object(),
    )
}

/// The string `finish_reason` of the first choice of a chunk.
pub open spec fn chunk_finish(v: JsonV) -> Option<Seq<char>> {
    match chunk_choice(v) {
        Some(ch) => json::get_str(ch, "finish_reason"@),
        None => None,
    }
}

/// The `usage` of a chunk, or `{}`.
pub open spec fn chunk_usage(v: JsonV) -> JsonV {
    json::opt_or(v.get("usage"@), json::empty_object())
}

/// Whether the token total of a finishing chunk fits in an `i64`.
pub open spec fn chunk_usage_fits(v: JsonV) -> bool {
    chunk_finish(v) is Some ==> i64::MIN <= response::token_count(chunk_usage(v), "prompt_tokens"@)
        + response::token_count(chunk_usage(v), "completion_tokens"@) <= i64::MAX
}

/// The state and events at the start of a chunk `v`: the response id and
/// model follow the chunk's, and `response.created` opens the stream.
pub open spec fn chat_chunk_open(s: ChatStreamV, v: JsonV) -> (ChatStreamV, Seq<FrameV>) {
    let s1 = ChatStreamV {
        response_id: match json::get_str(v, "id"@) {
            Some(id) => id,
            None => s.response_id,
        },
        model: match json::get_str(v, "model"@) {
            Some(m) => m,
            None => s.model,
        },
        ..s
    };
    (
        ChatStreamV { created_sent: true, ..s1 },
        if s1.created_sent {
            seq![]
        } else {
            seq![created_frame(s1)]
        },
    )
}

/// The state and events for the text of a chunk's `delta`: a text piece
/// opens the message item once and is added to its text.
pub open spec fn chat_chunk_text(s: ChatStreamV, delta: JsonV) -> (ChatStreamV, Seq<FrameV>) {
    match json::get_str(delta, "content"@) {
        Some(c) => (
            ChatStreamV { text_item_sent: true, output_text: s.output_text + c, ..s },
            (if s.text_item_sent {
                seq![]
            } else {
                text_opened_frames()
            }) + seq![text_delta_frame(c)],
        ),
        None => (s, seq![]),
    }
}

/// The state and events for the finish of a chunk: a `finish_reason`
/// closes the message item (once) and completes the response with the
/// chunk's usage, `incomplete` for a `length` finish.
pub open spec fn chat_chunk_finish(s: ChatStreamV, v: JsonV) -> (ChatStreamV, Seq<FrameV>) {
    match chunk_finish(v) {
        Some(fr) => {
            let close = s.text_item_sent && !s.text_done_sent;
            let s4 = ChatStreamV { text_done_sent: s.text_done_sent || close, ..s };
            let usage = chunk_usage(v);
            (
                ChatStreamV { completed_sent: true, ..s4 },
                (if close {
                    text_closed_frames(s.output_text)
                } else {
                    seq![]
                }) + seq![
                    completed_frame(
                        s4,
                        if fr == "length"@ {
                            "incomplete"@
                        } else {
                            "completed"@
                        },
                        response::token_count(usage, "prompt_tokens"@),
                        response::token_count(usage, "completion_tokens"@),
                    ),
                ],
            )
        },
        None => (s, seq![]),
    }
}

/// The state and events after the chunk `v` of a Chat stream: the opening,
/// the text, the tool calls (as function call items, recorded in the state)
/// and the finish, in that order.
pub open spec fn chat_chunk(s: ChatStreamV, v: JsonV) -> (ChatStreamV, Seq<FrameV>) {
    let (s2, f1) = chat_chunk_open(s, v);
    let delta = chunk_delta(v);
    let (s3, f2) = chat_chunk_text(s2, delta);
    let (calls, f3) = match get_array(delta, "tool_calls"@) {
        Some(ds) => chat_tool_calls(s3.calls, ds),
        None => (s3.calls, seq![]),
    };
    let (s4, f4) = chat_chunk_finish(ChatStreamV { calls, ..s3 }, v);
    (s4, f1 + f2 + f3 + f4)
}

/// The state and events at the end marker of a Chat stream: the response is
/// completed, if no finish did so yet, then the marker is passed on.
pub open spec fn chat_done(s: ChatStreamV) -> (ChatStreamV, Seq<FrameV>) {
    (
        s,
        (if s.completed_sent {
            seq![]
        } else {
            seq![completed_frame(s, "completed"@, 0, 0)]
        }) + seq![FrameV::Done],
    )
}


/// One input of a Chat stream: a JSON chunk or the end marker.
pub enum ChatStreamEvent {
    Chunk(JsonV),
    Done,
}

/// The state and events after one input.
pub open spec fn chat_step(s: ChatStreamV, e: ChatStreamEvent) -> (ChatStreamV, Seq<FrameV>) {
    match e {
        ChatStreamEvent::Chunk(v) => chat_chunk(s, v),
        ChatStreamEvent::Done => chat_done(s),
    }
}

/// The state and all events after a sequence of inputs.
pub open spec fn chat_run(s: ChatStreamV, es: Seq<ChatStreamEvent>) -> (ChatStreamV, Seq<FrameV>)
    decreases es.len(),
{
    if es.len() == 0 {
        (s, seq![])
    } else {
        let (s1, f1) = chat_run(s, es.drop_last());
        let (s2, f2) = chat_step(s1, es.last());
        (s2, f1 + f2)
    }
}

/// How many of the events are named `name`.
pub open spec fn count_named(fs: Seq<FrameV>, name: Seq<char>) -> nat
    decreases fs.len(),
{
    if fs.len() == 0 {
        0
    } else {
        count_named(fs.drop_last(), name) + match fs.last() {
            FrameV::Event { name: n, data: _ } => if n == name {
                1nat
            } else {
                0nat
            },
            _ => 0nat,
        }
    }
}

/// Whether an input of a Chat stream is a chunk with a `finish_reason`.
pub open spec fn finishes(e: ChatStreamEvent) -> bool {
    match e {
        ChatStreamEvent::Chunk(v) => chunk_finish(v) is Some,
        ChatStreamEvent::Done => false,
    }
}

/// How many inputs among `es` are chunks with a `finish_reason`.
pub open spec fn finish_count(es: Seq<ChatStreamEvent>) -> nat
    decreases es.len(),
{
    if es.len() == 0 {
        0
    } else {
        finish_count(es.drop_last()) + if finishes(es.last()) {
            1nat
        } else {
            0nat
        }
    }
}

/// The text pieces that the chunks among `es` carry, one after another.
pub open spec fn streamed_text(es: Seq<ChatStreamEvent>) -> Seq<char>
    decreases es.len(),
{
    if es.len() == 0 {
        seq![]
    } else {
        streamed_text(es.drop_last()) + match es.last() {
            ChatStreamEvent::Chunk(v) => match json::get_str(chunk_delta(v), "content"@) {
                Some(c) => c,
                None => seq![],
            },
            ChatStreamEvent::Done => seq![],
        }
    }
}

fn output_text_part_exec(t: &str) -> (r: Json)
    ensures
        r@ == output_text_part(t@),
{
    let mut es = new_members();
    push_member(&mut es, "type", text("output_text"));
    push_member(&mut es, "text", text(t));
    assert(json::entries_view(es@) =~= output_text_part(t@)->Object_0);
    Json::Object(es)
}

fn stream_message_exec(t: &str) -> (r: Json)
    ensures
        r@ == stream_message(t@),
{
    let mut content = new_items();
    push_item(&mut content, output_text_part_exec(t));
    let mut es = new_members();
    push_member(&mut es, "id", text("msg_chat_0"));
    push_member(&mut es, "type", text("message"));
    push_member(&mut es, "role", text("assistant"));
    push_member(&mut es, "content", Json::Array(content));
    assert(json::items_view(content@) =~= seq![output_text_part(t@)]);
    assert(json::entries_view(es@) =~= stream_message(t@)->Object_0);
    Json::Object(es)
}

fn call_item_exec(c: &StreamedCall) -> (r: Json)
    ensures
        r@ == call_item(c@),
{
    let mut es = new_members();
    push_member(&mut es, "type", text("function_call"));
    push_member(&mut es, "call_id", text(c.call_id.as_str()));
    push_member(&mut es, "name", text(c.name.as_str()));
    push_member(&mut es, "arguments", text(c.arguments.as_str()));
    assert(json::entries_view(es@) =~= call_item(c@)->Object_0);
    Json::Object(es)
}

fn text_opened_frames_exec(fs: &mut Vec<SseFrame>)
    ensures
        frames_view(final(fs)@) == frames_view(old(fs)@) + text_opened_frames(),
{
    let ghost before = frames_view(fs@);
    let ghost expected = text_opened_frames();
    let mut item = new_members();
    push_member(&mut item, "id", text("msg_chat_0"));
    push_member(&mut item, "type", text("message"));
    push_member(&mut item, "status", text("in_progress"));
    push_member(&mut item, "role", text("assistant"));
    push_member(&mut item, "content", Json::Array(new_items()));
    let mut added = new_members();
    push_member(&mut added, "type", text("response.output_item.added"));
    push_member(&mut added, "output_index", int_json(0));
    push_member(&mut added, "item", Json::Object(item));
    assert(json::entries_view(item@) =~= expected[0]->data->Object_0[2].1->Object_0);
    assert(json::entries_view(added@) =~= expected[0]->data->Object_0);
    push_frame(fs, event_frame("response.output_item.added", Json::Object(added)));
    let mut part = new_members();
    push_member(&mut part, "type", text("response.content_part.added"));
    push_member(&mut part, "item_id", text("msg_chat_0"));
    push_member(&mut part, "output_index", int_json(0));
    push_member(&mut part, "content_index", int_json(0));
    push_member(&mut part, "part", output_text_part_exec(""));
    assert(json::entries_view(part@) =~= expected[1]->data->Object_0);
    push_frame(fs, event_frame("response.content_part.added", Json::Object(part)));
    assert(frames_view(fs@) =~= before + expected);
}

fn text_delta_frame_exec(c: &str) -> (r: SseFrame)
    ensures
        r@ == text_delta_frame(c@),
{
    let mut es = new_members();
    push_member(&mut es, "type", text("response.output_text.delta"));
    push_member(&mut es, "item_id", text("msg_chat_0"));
    push_member(&mut es, "output_index", int_json(0));
    push_member(&mut es, "content_index", int_json(0));
    push_member(&mut es, "delta", text(c));
    assert(json::entries_view(es@) =~= text_delta_frame(c@)->data->Object_0);
    event_frame("response.output_text.delta", Json::Object(es))
}

fn text_closed_frames_exec(t: &str, fs: &mut Vec<SseFrame>)
    ensures
        frames_view(final(fs)@) == frames_view(old(fs)@) + text_closed_frames(t@),
{
    let ghost before = frames_view(fs@);
    let ghost expected = text_closed_frames(t@);
    let mut part = new_members();
    push_member(&mut part, "type", text("response.content_part.done"));
    push_member(&mut part, "item_id", text("msg_chat_0"));
    push_member(&mut part, "output_index", int_json(0));
    push_member(&mut part, "content_index", int_json(0));
    assert(json::entries_view(part@) =~= expected[0]->data->Object_0);
    push_frame(fs, event_frame("response.content_part.done", Json::Object(part)));
    let mut content = new_items();
    push_item(&mut content, output_text_part_exec(t));
    let mut item = new_members();
    push_member(&mut item, "id", text("msg_chat_0"));
    push_member(&mut item, "type", text("message"));
    push_member(&mut item, "status", text("completed"));
    push_member(&mut item, "role", text("assistant"));
    push_member(&mut item, "content", Json::Array(content));
    let mut done = new_members();
    push_member(&mut done, "type", text("response.output_item.done"));
    push_member(&mut done, "output_index", int_json(0));
    push_member(&mut done, "item", Json::Object(item));
    assert(json::items_view(content@) =~= seq![output_text_part(t@)]);
    assert(json::entries_view(item@) =~= expected[1]->data->Object_0[2].1->Object_0);
    assert(json::entries_view(done@) =~= expected[1]->data->Object_0);
    push_frame(fs, event_frame("response.output_item.done", Json::Object(done)));
    assert(frames_view(fs@) =~= before + expected);
}

fn call_function_str_exec<'a>(call: &'a Json, key: &str) -> (r: &'a str)
    ensures
        r@ == call_function_str(call@, key@),
{
    match call.path2("function", key) {
        Some(v) => match v.as_str() {
            Some(s) => s,
            None => "",
        },
        None => "",
    }
}

/// Whether the token total of a finishing chunk fits in an `i64`.
pub fn chunk_usage_in_range(v: &Json) -> (r: bool)
    ensures
        r == chunk_usage_fits(v@),
{
    let finish = match v.get("choices") {
        Some(c) => match c.at_zero() {
            Some(ch) => ch.get_str("finish_reason"),
            None => None,
        },
        None => None,
    };
    if finish.is_none() {
        return true;
    }
    let empty = new_object();
    let usage = match v.get("usage") {
        Some(u) => u,
        None => &empty,
    };
    let a = token_count_i128(usage, "prompt_tokens");
    let b = token_count_i128(usage, "completion_tokens");
    let total = a + b;
    -9223372036854775808i128 <= total && total <= 9223372036854775807i128
}

fn token_count_i128(u: &Json, key: &str) -> (r: i128)
    ensures
        r as int == response::token_count(u@, key@),
{
    match u.get(key) {
        Some(v) => match v.as_i64() {
            Some(n) => n as i128,
            None => 0,
        },
        None => 0,
    }
}

fn token_count_exec(u: &Json, key: &str) -> (r: i64)
    ensures
        r as int == response::token_count(u@, key@),
{
    match u.get(key) {
        Some(v) => match v.as_i64() {
            Some(n) => n,
            None => 0,
        },
        None => 0,
    }
}

impl ChatToResponsesStream {
    pub fn new() -> (r: ChatToResponsesStream)
        ensures
            r@ == chat_stream_start(),
    {
        let calls: Vec<StreamedCall> = Vec::new();
        assert(calls_view(calls@) =~= Seq::<CallV>::empty());
        ChatToResponsesStream {
            response_id: "resp_chat_stream".to_owned(),
            model: "unknown".to_owned(),
            created_sent: false,
            text_item_sent: false,
            text_done_sent: false,
            completed_sent: false,
            output_text: "".to_owned(),
            calls,
        }
    }

    fn completed_frame_exec(&self, status: &str, input: i64, output: i64) -> (r: SseFrame)
        requires
            i64::MIN <= input + output <= i64::MAX,
        ensures
            r@ == completed_frame(self@, status@, input as int, output as int),
    {
        let mut output_items = new_items();
        push_item(&mut output_items, stream_message_exec(self.output_text.as_str()));
        let ghost message = seq![stream_message(self@.output_text)];
        let ghost cv = calls_view(self.calls@);
        assert(json::items_view(output_items@) =~= message + calls_items(cv.take(0)));
        for i in 0..self.calls.len()
            invariant
                cv == calls_view(self.calls@),
                json::items_view(output_items@) == message + calls_items(cv.take(i as int)),
        {
            push_item(&mut output_items, call_item_exec(&self.calls[i]));
            assert(calls_items(cv.take(i + 1)) =~= calls_items(cv.take(i as int)).push(call_item(cv[i as int])));
        }
        assert(cv.take(self.calls.len() as int) =~= cv);
        let mut usage = new_members();
        push_member(&mut usage, "input_tokens", int_json(input));
        push_member(&mut usage, "output_tokens", int_json(output));
        push_member(&mut usage, "total_tokens", int_json(input + output));
        let mut resp = new_members();
        push_member(&mut resp, "id", text(self.response_id.as_str()));
        push_member(&mut resp, "object", text("response"));
        push_member(&mut resp, "model", text(self.model.as_str()));
        push_member(&mut resp, "status", text(status));
        push_member(&mut resp, "output", Json::Array(output_items));
        push_member(&mut resp, "usage", Json::Object(usage));
        let mut es = new_members();
        push_member(&mut es, "type", text("response.completed"));
        push_member(&mut es, "response", Json::Object(resp));
        let ghost d = completed_frame(self@, status@, input as int, output as int)->data;
        assert(json::entries_view(usage@) =~= d->Object_0[1].1->Object_0[5].1->Object_0);
        assert(json::entries_view(resp@) =~= d->Object_0[1].1->Object_0);
        assert(json::entries_view(es@) =~= d->Object_0);
        event_frame("response.completed", Json::Object(es))
    }

    fn created_frame_exec(&self) -> (r: SseFrame)
        ensures
            r@ == created_frame(self@),
    {
        let mut resp = new_members();
        push_member(&mut resp, "id", text(self.response_id.as_str()));
        push_member(&mut resp, "object", text("response"));
        push_member(&mut resp, "model", text(self.model.as_str()));
        push_member(&mut resp, "status", text("in_progress"));
        push_member(&mut resp, "output", Json::Array(new_items()));
        let mut es = new_members();
        push_member(&mut es, "type", text("response.created"));
        push_member(&mut es, "response", Json::Object(resp));
        let ghost d = created_frame(self@)->data;
        assert(json::entries_view(resp@) =~= d->Object_0[1].1->Object_0);
        assert(json::entries_view(es@) =~= d->Object_0);
        event_frame("response.created", Json::Object(es))
    }

    /// Records one streamed tool call delta and sends its events.
    fn tool_call(&mut self, call: &Json, fs: &mut Vec<SseFrame>)
        ensures
            final(self)@ == (ChatStreamV { calls: chat_tool_call(old(self)@.calls, call@).0, ..old(self)@ }),
            frames_view(final(fs)@) == frames_view(old(fs)@) + chat_tool_call(old(self)@.calls, call@).1,
    {
        let ghost before = frames_view(fs@);
        let ghost expected = chat_tool_call(old(self)@.calls, call@);
        let id = match call.get_str("id") {
            Some(s) => s,
            None => "",
        };
        let name = call_function_str_exec(call, "name");
        let args = call_function_str_exec(call, "arguments");
        if id.is_empty() && name.is_empty() && args.is_empty() {
            assert(frames_view(fs@) =~= before + expected.1);
            return;
        }
        let n = self.calls.len();
        let continues = n > 0 && (id.is_empty() || text_eq(id, self.calls[n - 1].call_id.as_str()));
        proof {
            if n > 0 {
                assert(calls_view(self.calls@).last() == self.calls@[n - 1]@);
            }
        }
        if continues {
            let mut last = self.calls.pop().unwrap();
            last.arguments.append(args);
            self.calls.push(last);
            assert(calls_view(self.calls@) =~= expected.0);
        } else {
            let stable_id = if id.is_empty() {
                "call_1"
            } else {
                id
            };
            let stable_name = if name.is_empty() {
                "function"
            } else {
                name
            };
            let mut item = new_members();
            push_member(&mut item, "type", text("function_call"));
            push_member(&mut item, "call_id", text(stable_id));
            push_member(&mut item, "name", text(stable_name));
            push_member(&mut item, "arguments", text(""));
            let mut added = new_members();
            push_member(&mut added, "type", text("response.output_item.added"));
            push_member(&mut added, "item", Json::Object(item));
            let ghost f = call_added_frame(stable_id@, stable_name@);
            assert(json::entries_view(item@) =~= f->data->Object_0[1].1->Object_0);
            assert(json::entries_view(added@) =~= f->data->Object_0);
            push_frame(fs, event_frame("response.output_item.added", Json::Object(added)));
            self.calls.push(
                StreamedCall {
                    call_id: stable_id.to_owned(),
                    name: stable_name.to_owned(),
                    arguments: args.to_owned(),
                },
            );
            assert(calls_view(self.calls@) =~= expected.0);
        }
        if !args.is_empty() {
            let mut delta = new_members();
            push_member(&mut delta, "type", text("response.function_call_arguments.delta"));
            push_member(&mut delta, "delta", text(args));
            assert(json::entries_view(delta@) =~= call_arguments_frames(args@)[0]->data->Object_0);
            push_frame(fs, event_frame("response.function_call_arguments.delta", Json::Object(delta)));
        }
        assert(frames_view(fs@) =~= before + expected.1);
    }

    /// Records the streamed tool call deltas `ds`, one after another.
    fn tool_calls(&mut self, ds: &Vec<Json>, fs: &mut Vec<SseFrame>)
        ensures
            final(self)@ == (ChatStreamV {
                calls: chat_tool_calls(old(self)@.calls, json::items_view(ds@)).0,
                ..old(self)@
            }),
            frames_view(final(fs)@) == frames_view(old(fs)@) + chat_tool_calls(
                old(self)@.calls,
                json::items_view(ds@),
            ).1,
    {
        let ghost before = frames_view(fs@);
        let ghost s0 = self@;
        let ghost dv = json::items_view(ds@);
        proof {
            json::lemma_items_view(ds@);
            assert(dv.take(0) =~= Seq::<JsonV>::empty());
            assert(frames_view(fs@) =~= before + chat_tool_calls(s0.calls, dv.take(0)).1);
        }
        for i in 0..ds.len()
            invariant
                dv == json::items_view(ds@),
                dv.len() == ds@.len(),
                forall|k: int| 0 <= k < dv.len() ==> #[trigger] dv[k] == json::json_view(ds@[k]),
                self@ == (ChatStreamV { calls: chat_tool_calls(s0.calls, dv.take(i as int)).0, ..s0 }),
                frames_view(fs@) == before + chat_tool_calls(s0.calls, dv.take(i as int)).1,
        {
            assert(dv.take(i + 1).drop_last() =~= dv.take(i as int));
            assert(dv.take(i + 1).last() == dv[i as int]);
            self.tool_call(&ds[i], fs);
            assert(frames_view(fs@) =~= before + chat_tool_calls(s0.calls, dv.take(i + 1)).1);
        }
        assert(dv.take(ds.len() as int) =~= dv);
    }

    /// The events for the end marker of the Chat stream.
    pub fn on_done(&mut self) -> (r: Vec<SseFrame>)
        ensures
            (final(self)@, frames_view(r@)) == chat_done(old(self)@),
    {
        let mut fs: Vec<SseFrame> = Vec::new();
        assert(frames_view(fs@) =~= Seq::<FrameV>::empty());
        if !self.completed_sent {
            let f = self.completed_frame_exec("completed", 0, 0);
            push_frame(&mut fs, f);
        }
        push_frame(&mut fs, SseFrame::Done);
        assert(frames_view(fs@) =~= chat_done(old(self)@).1);
        fs
    }

    fn open_chunk(&mut self, v: &Json, fs: &mut Vec<SseFrame>)
        ensures
            final(self)@ == chat_chunk_open(old(self)@, v@).0,
            frames_view(final(fs)@) == frames_view(old(fs)@) + chat_chunk_open(old(self)@, v@).1,
    {
        let ghost before = frames_view(fs@);
        if let Some(id) = v.get_str("id") {
            self.response_id = id.to_owned();
        }
        if let Some(m) = v.get_str("model") {
            self.model = m.to_owned();
        }
        if !self.created_sent {
            let f = self.created_frame_exec();
            push_frame(fs, f);
            self.created_sent = true;
        }
        assert(frames_view(fs@) =~= before + chat_chunk_open(old(self)@, v@).1);
    }

    fn text_chunk(&mut self, delta: &Json, fs: &mut Vec<SseFrame>)
        ensures
            final(self)@ == chat_chunk_text(old(self)@, delta@).0,
            frames_view(final(fs)@) == frames_view(old(fs)@) + chat_chunk_text(old(self)@, delta@).1,
    {
        let ghost before = frames_view(fs@);
        if let Some(content) = delta.get_str("content") {
            if !self.text_item_sent {
                text_opened_frames_exec(fs);
                self.text_item_sent = true;
            }
            self.output_text.append(content);
            push_frame(fs, text_delta_frame_exec(content));
        }
        assert(frames_view(fs@) =~= before + chat_chunk_text(old(self)@, delta@).1);
    }

    fn finish_chunk(&mut self, v: &Json, fs: &mut Vec<SseFrame>)
        requires
            chunk_usage_fits(v@),
        ensures
            final(self)@ == chat_chunk_finish(old(self)@, v@).0,
            frames_view(final(fs)@) == frames_view(old(fs)@) + chat_chunk_finish(old(self)@, v@).1,
    {
        let ghost before = frames_view(fs@);
        let finish = match v.get("choices") {
            Some(c) => match c.at_zero() {
                Some(ch) => ch.get_str("finish_reason"),
                None => None,
            },
            None => None,
        };
        if let Some(fr) = finish {
            if self.text_item_sent && !self.text_done_sent {
                text_closed_frames_exec(self.output_text.as_str(), fs);
                self.text_done_sent = true;
            }
            let empty = new_object();
            let usage = match v.get("usage") {
                Some(u) => u,
                None => &empty,
            };
            assert(usage@ == chunk_usage(v@));
            let input = token_count_exec(usage, "prompt_tokens");
            let output = token_count_exec(usage, "completion_tokens");
            let status = if text_eq(fr, "length") {
                "incomplete"
            } else {
                "completed"
            };
            let f = self.completed_frame_exec(status, input, output);
            push_frame(fs, f);
            self.completed_sent = true;
        }
        assert(frames_view(fs@) =~= before + chat_chunk_finish(old(self)@, v@).1);
    }

    /// The events for one JSON chunk `v` of the Chat stream.
    pub fn on_chunk(&mut self, v: &Json) -> (r: Vec<SseFrame>)
        requires
            chunk_usage_fits(v@),
        ensures
            (final(self)@, frames_view(r@)) == chat_chunk(old(self)@, v@),
    {
        let mut fs: Vec<SseFrame> = Vec::new();
        assert(frames_view(fs@) =~= Seq::<FrameV>::empty());
        self.open_chunk(v, &mut fs);
        let empty = new_object();
        let delta = match v.get("choices") {
            Some(c) => match c.at_zero() {
                Some(ch) => match ch.get("delta") {
                    Some(d) => d,
                    None => &empty,
                },
                None => &empty,
            },
            None => &empty,
        };
        assert(delta@ == chunk_delta(v@));
        self.text_chunk(delta, &mut fs);
        let calls = match delta.get("tool_calls") {
            Some(t) => t.as_array(),
            None => None,
        };
        if let Some(calls) = calls {
            self.tool_calls(calls, &mut fs);
        }
        self.finish_chunk(v, &mut fs);
        fs
    }

    /// The events for what a block of the Chat stream carries: the end
    /// marker, or a payload with `payload` the JSON it parsed to (`None` when
    /// it is not JSON, and then the block gives no events).
    pub fn on_input(&mut self, input: &ChatSseInput, payload: Option<&Json>) -> (r: Vec<SseFrame>)
        requires
            payload matches Some(v) ==> chunk_usage_fits(v@),
        ensures
            match input {
                ChatSseInput::Done => (final(self)@, frames_view(r@)) == chat_done(old(self)@),
                ChatSseInput::Data(_) => match payload {
                    Some(v) => (final(self)@, frames_view(r@)) == chat_chunk(old(self)@, v@),
                    None => final(self)@ == old(self)@ && r@.len() == 0,
                },
            },
    {
        match input {
            ChatSseInput::Done => self.on_done(),
            ChatSseInput::Data(_) => match payload {
                Some(v) => self.on_chunk(v),
                None => Vec::new(),
            },
        }
    }
}


// ---------------------------------------------------------------------------
// Responses stream -> Chat stream
// ---------------------------------------------------------------------------

/// A Chat stream chunk with the given first-choice body.
pub open spec fn chat_chunk_data(choice: JsonV) -> JsonV {
    JsonV::Object(
        seq![
            ("id"@, json::str_v("chatcmpl_bridge"@)),
            ("object"@, json::str_v("chat.completion.chunk"@)),
            ("choices"@, JsonV::Array(seq![choice])),
        ],
    )
}

/// A first choice with index 0 and the given `delta`.
pub open spec fn delta_choice(delta: JsonV) -> JsonV {
    JsonV::Object(seq![("index"@, json::int_v(0)), ("delta"@, delta)])
}

/// A `delta` with one tool call.
pub open spec fn tool_call_delta(call: JsonV) -> JsonV {
    JsonV::Object(seq![("tool_calls"@, JsonV::Array(seq![call]))])
}

/// Whether the item of an event is a function call (`/item/type` is the
/// string `function_call`).
pub open spec fn adds_function_call(v: JsonV) -> bool {
    match json::path2(v, "item"@, "type"@) {
        Some(t) => t.as_str() == Some("function_call"@),
        None => false,
    }
}

/// The Chat chunk for one event of a Responses stream, by event name: a
/// text delta, a new function call (an added item of another type gives
/// nothing), a function call arguments delta, or the completion (finish
/// `stop` with the usage). Other events give nothing.
pub open spec fn chat_stream_frame(event: Seq<char>, v: JsonV) -> Option<FrameV> {
    if event == "response.output_text.delta"@ {
        Some(
            FrameV::Data(
                chat_chunk_data(
                    delta_choice(
                        JsonV::Object(seq![("content"@, json::get_or(v, "delta"@, json::str_v(""@)))]),
                    ),
                ),
            ),
        )
    } else if event == "response.output_item.added"@ {
        if !adds_function_call(v) {
            None
        } else {
            Some(
                FrameV::Data(
                    chat_chunk_data(
                        delta_choice(
                            tool_call_delta(
                                JsonV::Object(seq![
                                    ("index"@, json::int_v(0)),
                                    ("id"@, json::opt_or(json::path2(v, "item"@, "call_id"@), json::str_v("call_1"@))),
                                    ("type"@, json::str_v("function"@)),
                                    ("function"@, JsonV::Object(seq![
                                        ("name"@, json::opt_or(json::path2(v, "item"@, "name"@), json::str_v("function"@))),
                                        ("arguments"@, json::str_v(""@)),
                                    ])),
                                ]),
                            ),
                        ),
                    ),
                ),
            )
        }
    } else if event == "response.function_call_arguments.delta"@ {
        Some(
            FrameV::Data(
                chat_chunk_data(
                    delta_choice(
                        tool_call_delta(
                            JsonV::Object(seq![
                                ("index"@, json::int_v(0)),
                                ("function"@, JsonV::Object(seq![
                                    ("arguments"@, json::get_or(v, "delta"@, json::str_v(""@))),
                                ])),
                            ]),
                        ),
                    ),
                ),
            ),
        )
    } else if event == "response.completed"@ {
        let usage = json::opt_or(json::path2(v, "response"@, "usage"@), json::empty_object());
        Some(
            FrameV::Data(
                JsonV::Object(
                    seq![
                        ("id"@, json::str_v("chatcmpl_bridge"@)),
                        ("object"@, json::str_v("chat.completion.chunk"@)),
                        ("choices"@, JsonV::Array(seq![
                            JsonV::Object(seq![
                                ("index"@, json::int_v(0)),
                                ("delta"@, json::empty_object()),
                                ("finish_reason"@, json::str_v("stop"@)),
                            ]),
                        ])),
                        ("usage"@, JsonV::Object(seq![
                            ("prompt_tokens"@, json::get_or(usage, "input_tokens"@, json::int_v(0))),
                            ("completion_tokens"@, json::get_or(usage, "output_tokens"@, json::int_v(0))),
                        ])),
                    ],
                ),
            ),
        )
    } else {
        None
    }
}

fn chat_chunk_data_exec(choice: Json) -> (r: SseFrame)
    ensures
        r@ == FrameV::Data(chat_chunk_data(choice@)),
{
    let mut choices = new_items();
    push_item(&mut choices, choice);
    let mut es = new_members();
    push_member(&mut es, "id", text("chatcmpl_bridge"));
    push_member(&mut es, "object", text("chat.completion.chunk"));
    push_member(&mut es, "choices", Json::Array(choices));
    assert(json::items_view(choices@) =~= seq![choice@]);
    assert(json::entries_view(es@) =~= chat_chunk_data(choice@)->Object_0);
    SseFrame::Data(Json::Object(es))
}

fn delta_choice_exec(delta: Json) -> (r: Json)
    ensures
        r@ == delta_choice(delta@),
{
    let mut es = new_members();
    push_member(&mut es, "index", int_json(0));
    push_member(&mut es, "delta", delta);
    assert(json::entries_view(es@) =~= delta_choice(delta@)->Object_0);
    Json::Object(es)
}

fn tool_call_delta_exec(call: Json) -> (r: Json)
    ensures
        r@ == tool_call_delta(call@),
{
    let mut calls = new_items();
    push_item(&mut calls, call);
    let mut es = new_members();
    push_member(&mut es, "tool_calls", Json::Array(calls));
    assert(json::items_view(calls@) =~= seq![call@]);
    assert(json::entries_view(es@) =~= tool_call_delta(call@)->Object_0);
    Json::Object(es)
}

fn path2_or(v: &Json, k1: &str, k2: &str, default: Json) -> (r: Json)
    ensures
        r@ == json::opt_or(json::path2(v@, k1@, k2@), default@),
{
    match v.path2(k1, k2) {
        Some(x) => x.clone(),
        None => default,
    }
}

/// The Chat chunk for one event of a Responses stream.
pub fn responses_event_to_chat(event: &str, v: &Json) -> (r: Option<SseFrame>)
    ensures
        match r {
            Some(f) => chat_stream_frame(event@, v@) == Some(f@),
            None => chat_stream_frame(event@, v@) is None,
        },
{
    if text_eq(event, "response.output_text.delta") {
        let mut delta = new_members();
        push_member(&mut delta, "content", v.get_or("delta", text("")));
        let ghost d = json::get_or(v@, "delta"@, json::str_v(""@));
        assert(json::entries_view(delta@) =~= seq![("content"@, d)]);
        Some(chat_chunk_data_exec(delta_choice_exec(Json::Object(delta))))
    } else if text_eq(event, "response.output_item.added") {
        let is_call = match v.path2("item", "type") {
            Some(t) => match t.as_str() {
                Some(ty) => text_eq(ty, "function_call"),
                None => false,
            },
            None => false,
        };
        if !is_call {
            return None;
        }
        let mut func = new_members();
        push_member(&mut func, "name", path2_or(v, "item", "name", text("function")));
        push_member(&mut func, "arguments", text(""));
        let mut call = new_members();
        push_member(&mut call, "index", int_json(0));
        push_member(&mut call, "id", path2_or(v, "item", "call_id", text("call_1")));
        push_member(&mut call, "type", text("function"));
        push_member(&mut call, "function", Json::Object(func));
        let ghost c = chat_stream_frame(event@, v@).unwrap()->Data_0->Object_0[2].1->Array_0[0]->Object_0[1].1->Object_0[0].1->Array_0[0];
        assert(json::entries_view(func@) =~= c->Object_0[3].1->Object_0);
        assert(json::entries_view(call@) =~= c->Object_0);
        Some(chat_chunk_data_exec(delta_choice_exec(tool_call_delta_exec(Json::Object(call)))))
    } else if text_eq(event, "response.function_call_arguments.delta") {
        let mut func = new_members();
        push_member(&mut func, "arguments", v.get_or("delta", text("")));
        let mut call = new_members();
        push_member(&mut call, "index", int_json(0));
        push_member(&mut call, "function", Json::Object(func));
        let ghost c = chat_stream_frame(event@, v@).unwrap()->Data_0->Object_0[2].1->Array_0[0]->Object_0[1].1->Object_0[0].1->Array_0[0];
        assert(json::entries_view(func@) =~= c->Object_0[1].1->Object_0);
        assert(json::entries_view(call@) =~= c->Object_0);
        Some(chat_chunk_data_exec(delta_choice_exec(tool_call_delta_exec(Json::Object(call)))))
    } else if text_eq(event, "response.completed") {
        let usage = path2_or(v, "response", "usage", new_object());
        let mut u = new_members();
        push_member(&mut u, "prompt_tokens", usage.get_or("input_tokens", int_json(0)));
        push_member(&mut u, "completion_tokens", usage.get_or("output_tokens", int_json(0)));
        let mut choice = new_members();
        push_member(&mut choice, "index", int_json(0));
        push_member(&mut choice, "delta", new_object());
        push_member(&mut choice, "finish_reason", text("stop"));
        let mut choices = new_items();
        push_item(&mut choices, Json::Object(choice));
        let mut es = new_members();
        push_member(&mut es, "id", text("chatcmpl_bridge"));
        push_member(&mut es, "object", text("chat.completion.chunk"));
        push_member(&mut es, "choices", Json::Array(choices));
        push_member(&mut es, "usage", Json::Object(u));
        let ghost d = chat_stream_frame(event@, v@).unwrap()->Data_0;
        assert(json::entries_view(u@) =~= d->Object_0[3].1->Object_0);
        assert(json::entries_view(choice@) =~= d->Object_0[2].1->Array_0[0]->Object_0);
        assert(json::items_view(choices@) =~= d->Object_0[2].1->Array_0);
        assert(json::entries_view(es@) =~= d->Object_0);
        Some(SseFrame::Data(Json::Object(es)))
    } else {
        None
    }
}

/// The Chat chunk for what a block of a Responses stream carries: the end
/// marker is passed on; an event with `payload` the JSON its data parsed to
/// is converted (`None` when the data is not JSON, and then the block gives
/// nothing).
pub fn responses_input_to_chat(input: &ResponsesSseInput, payload: Option<&Json>) -> (r: Option<SseFrame>)
    ensures
        match input {
            ResponsesSseInput::Done => r matches Some(f) && f@ == FrameV::Done,
            ResponsesSseInput::Data { event, data: _ } => match payload {
                Some(v) => match r {
                    Some(f) => chat_stream_frame(event@, v@) == Some(f@),
                    None => chat_stream_frame(event@, v@) is None,
                },
                None => r is None,
            },
        },
{
    match input {
        ResponsesSseInput::Done => Some(SseFrame::Done),
        ResponsesSseInput::Data { event, data: _ } => match payload {
            Some(v) => responses_event_to_chat(event.as_str(), v),
            None => None,
        },
    }
}

} // verus!
