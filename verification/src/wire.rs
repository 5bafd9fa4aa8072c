use crate::json::{json_parse, json_text, json_to_text, parse_json};
use crate::sse::{
    blocks, chat_block_input, next_block, read_chat_block, read_responses_block,
    responses_block_input, ChatInputV, ChatSseInput, ResponsesInputV, ResponsesSseInput,
    SseBuffer,
};
use crate::stream::{
    chat_chunk, chat_done, chat_stream_frame, chunk_usage_fits, chunk_usage_in_range,
    frame_text, frames_view, responses_input_to_chat, ChatStreamV, ChatToResponsesStream,
    FrameV, SseFrame,
};
use vstd::prelude::*;

verus! {

// ---------------------------------------------------------------------------
// The text of converted events
// ---------------------------------------------------------------------------

/// The JSON text of a frame's data; the end marker has none.
pub open spec fn frame_payload(f: FrameV) -> Seq<char> {
    match f {
        FrameV::Event { name: _, data } => json_text(data),
        FrameV::Data(d) => json_text(d),
        FrameV::Done => seq![],
    }
}

/// The event-stream text of a frame, its data written as JSON text.
pub open spec fn frame_wire(f: FrameV) -> Seq<char> {
    frame_text(f, frame_payload(f))
}

/// The event-stream texts of the frames, in order.
pub open spec fn frames_wire(fs: Seq<FrameV>) -> Seq<Seq<char>> {
    fs.map_values(|f: FrameV| frame_wire(f))
}

pub open spec fn texts_view(ts: Seq<String>) -> Seq<Seq<char>> {
    ts.map_values(|t: String| t@)
}

/// The event-stream text of a frame.
pub fn render_frame(f: &SseFrame) -> (r: String)
    ensures
        r@ == frame_wire(f@),
{
    let payload = match f {
        SseFrame::Event { name: _, data } => json_to_text(data),
        SseFrame::Data(d) => json_to_text(d),
        SseFrame::Done => String::new(),
    };
    f.to_text(payload.as_str())
}

fn render_frames(fs: &Vec<SseFrame>) -> (r: Vec<String>)
    ensures
        texts_view(r@) == frames_wire(frames_view(fs@)),
{
    let mut out: Vec<String> = Vec::new();
    for i in 0..fs.len()
        invariant
            texts_view(out@) == frames_wire(frames_view(fs@.take(i as int))),
    {
        let ghost t0 = out@;
        let t = render_frame(&fs[i]);
        out.push(t);
        assert(fs@.take(i + 1) =~= fs@.take(i as int).push(fs@[i as int]));
        assert(frames_view(fs@.take(i + 1)) =~= frames_view(fs@.take(i as int)).push(fs@[i as int]@));
        assert(frames_wire(frames_view(fs@.take(i + 1))) =~= frames_wire(frames_view(fs@.take(i as int))).push(
            frame_wire(fs@[i as int]@),
        ));
        assert(texts_view(out@) =~= texts_view(t0).push(t@));
        assert(texts_view(out@) =~= frames_wire(frames_view(fs@.take(i + 1))));
    }
    assert(fs@.take(fs.len() as int) =~= fs@);
    out
}

// ---------------------------------------------------------------------------
// Chat stream bytes -> Responses stream text
// ---------------------------------------------------------------------------

/// The state and event texts after one block of a Chat stream: a block
/// without data changes nothing; the end marker ends the stream; data that
/// is JSON is a chunk, and data that is not is passed over. `None` where a
/// chunk that finishes has a token total beyond `i64`.
pub open spec fn chat_block_step(s: ChatStreamV, block: Seq<u8>) -> Option<(ChatStreamV, Seq<Seq<char>>)> {
    match chat_block_input(block) {
        None => Some((s, seq![])),
        Some(ChatInputV::Done) => Some((chat_done(s).0, frames_wire(chat_done(s).1))),
        Some(ChatInputV::Data(d)) => match json_parse(d) {
            None => Some((s, seq![])),
            Some(v) => if chunk_usage_fits(v) {
                Some((chat_chunk(s, v).0, frames_wire(chat_chunk(s, v).1)))
            } else {
                None
            },
        },
    }
}

/// The state and event texts after the blocks `bs`, one after another;
/// `None` where a block's step is.
pub open spec fn chat_blocks_run(s: ChatStreamV, bs: Seq<Seq<u8>>) -> Option<(ChatStreamV, Seq<Seq<char>>)>
    decreases bs.len(),
{
    if bs.len() == 0 {
        Some((s, seq![]))
    } else {
        match chat_blocks_run(s, bs.drop_last()) {
            Some((s1, t1)) => match chat_block_step(s1, bs.last()) {
                Some((s2, t2)) => Some((s2, t1 + t2)),
                None => None,
            },
            None => None,
        }
    }
}

/// A run over `a` then `b` is the run over `a`, then the run over `b` from
/// where it left off.
pub proof fn lemma_chat_blocks_run_append(s: ChatStreamV, a: Seq<Seq<u8>>, b: Seq<Seq<u8>>)
    ensures
        chat_blocks_run(s, a + b) == match chat_blocks_run(s, a) {
            Some((s1, t1)) => match chat_blocks_run(s1, b) {
                Some((s2, t2)) => Some((s2, t1 + t2)),
                None => None,
            },
            None => None,
        },
    decreases b.len(),
{
    if b.len() == 0 {
        assert(a + b =~= a);
        match chat_blocks_run(s, a) {
            Some((s1, t1)) => {
                assert(t1 + Seq::<Seq<char>>::empty() =~= t1);
            },
            None => {},
        }
    } else {
        lemma_chat_blocks_run_append(s, a, b.drop_last());
        assert((a + b).drop_last() =~= a + b.drop_last());
        assert((a + b).last() == b.last());
        match chat_blocks_run(s, a) {
            Some((s1, t1)) => match chat_blocks_run(s1, b.drop_last()) {
                Some((s2, t2)) => match chat_block_step(s2, b.last()) {
                    Some((s3, t3)) => {
                        assert(t1 + t2 + t3 =~= t1 + (t2 + t3));
                    },
                    None => {},
                },
                None => {},
            },
            None => {},
        }
    }
}

/// The blocks of a stream that has a first block: that block, then the
/// blocks of what follows it.
proof fn lemma_blocks_step(s: Seq<u8>)
    requires
        next_block(s) is Some,
    ensures
        next_block(s).unwrap().1.len() < s.len(),
        blocks(s) == (seq![next_block(s).unwrap().0] + blocks(next_block(s).unwrap().1).0, blocks(
            next_block(s).unwrap().1,
        ).1),
{
    crate::sse::lemma_first_sep_from(s, 0);
}

impl ChatToResponsesStream {
    /// The event texts for one block of the Chat stream. `None`, with the
    /// state unchanged, where the block is a chunk that finishes with a token
    /// total beyond `i64`.
    pub fn on_block(&mut self, block: &Vec<u8>) -> (r: Option<Vec<String>>)
        ensures
            match chat_block_step(old(self)@, block@) {
                Some((s2, ts)) => r matches Some(t) && texts_view(t@) == ts && final(self)@ == s2,
                None => r is None && final(self)@ == old(self)@,
            },
    {
        match read_chat_block(block) {
            None => {
                let r: Vec<String> = Vec::new();
                assert(texts_view(r@) =~= Seq::<Seq<char>>::empty());
                Some(r)
            },
            Some(input) => {
                let payload = match &input {
                    ChatSseInput::Data(d) => parse_json(d.as_str()),
                    ChatSseInput::Done => None,
                };
                if let Some(v) = &payload {
                    if !chunk_usage_in_range(v) {
                        return None;
                    }
                }
                let fs = self.on_input(&input, payload.as_ref());
                let r = render_frames(&fs);
                proof {
                    if frames_view(fs@).len() == 0 {
                        assert(frames_wire(frames_view(fs@)) =~= Seq::<Seq<char>>::empty());
                    }
                }
                Some(r)
            },
        }
    }

    /// Appends a chunk of the Chat stream to `buffer` and gives the event
    /// texts of every block that is then complete, leaving the incomplete
    /// rest in `buffer`. `None` where one of those blocks is a chunk that
    /// finishes with a token total beyond `i64`.
    pub fn on_bytes(&mut self, buffer: &mut SseBuffer, bytes: &[u8]) -> (r: Option<Vec<String>>)
        ensures
            match chat_blocks_run(old(self)@, blocks(old(buffer)@ + bytes@).0) {
                Some((s2, ts)) => r matches Some(t) && texts_view(t@) == ts && final(self)@ == s2
                    && final(buffer)@ == blocks(old(buffer)@ + bytes@).1,
                None => r is None,
            },
    {
        let ghost all = old(buffer)@ + bytes@;
        let ghost s0 = self@;
        buffer.push_bytes(bytes);
        let mut out: Vec<String> = Vec::new();
        let ghost mut done: Seq<Seq<u8>> = seq![];
        assert(done + blocks(buffer@).0 =~= blocks(buffer@).0);
        assert(texts_view(out@) =~= Seq::<Seq<char>>::empty());
        loop
            invariant
                s0 == old(self)@,
                all == old(buffer)@ + bytes@,
                blocks(all) == (done + blocks(buffer@).0, blocks(buffer@).1),
                chat_blocks_run(s0, done) == Some((self@, texts_view(out@))),
            ensures
                blocks(all) == (done, buffer@),
                chat_blocks_run(s0, done) == Some((self@, texts_view(out@))),
            decreases buffer@.len(),
        {
            let ghost before = buffer@;
            match buffer.take_block() {
                None => {
                    assert(blocks(before).0 =~= Seq::<Seq<u8>>::empty());
                    assert(done + blocks(before).0 =~= done);
                    break;
                },
                Some(b) => {
                    proof {
                        lemma_blocks_step(before);
                        assert(done + blocks(before).0 =~= done.push(b@) + blocks(buffer@).0);
                        assert(done.push(b@).drop_last() =~= done);
                    }
                    match self.on_block(&b) {
                        None => {
                            proof {
                                assert(done.push(b@).last() == b@);
                                assert(chat_blocks_run(s0, done.push(b@)) is None);
                                lemma_chat_blocks_run_append(s0, done.push(b@), blocks(buffer@).0);
                            }
                            return None;
                        },
                        Some(mut ts) => {
                            let ghost t0 = out@;
                            let ghost t1 = ts@;
                            out.append(&mut ts);
                            proof {
                                assert(texts_view(out@) =~= texts_view(t0) + texts_view(t1));
                                done = done.push(b@);
                            }
                        },
                    }
                },
            }
        }
        Some(out)
    }
}

// ---------------------------------------------------------------------------
// Responses stream bytes -> Chat stream text
// ---------------------------------------------------------------------------

/// The Chat chunk text for one block of a Responses stream, if it gives
/// one: the end marker is passed on; an event whose data is JSON is
/// converted; anything else gives nothing.
pub open spec fn responses_block_text(block: Seq<u8>) -> Option<Seq<char>> {
    match responses_block_input(block) {
        Some(ResponsesInputV::Done) => Some(frame_wire(FrameV::Done)),
        Some(ResponsesInputV::Data { event, data }) => match json_parse(data) {
            Some(v) => match chat_stream_frame(event, v) {
                Some(f) => Some(frame_wire(f)),
                None => None,
            },
            None => None,
        },
        None => None,
    }
}

/// The Chat chunk texts for the blocks `bs`, in order.
pub open spec fn responses_blocks_text(bs: Seq<Seq<u8>>) -> Seq<Seq<char>>
    decreases bs.len(),
{
    if bs.len() == 0 {
        seq![]
    } else {
        responses_blocks_text(bs.drop_last()) + match responses_block_text(bs.last()) {
            Some(t) => seq![t],
            None => seq![],
        }
    }
}

pub proof fn lemma_responses_blocks_text_append(a: Seq<Seq<u8>>, b: Seq<Seq<u8>>)
    ensures
        responses_blocks_text(a + b) == responses_blocks_text(a) + responses_blocks_text(b),
    decreases b.len(),
{
    if b.len() == 0 {
        assert(a + b =~= a);
        assert(responses_blocks_text(a) + responses_blocks_text(b) =~= responses_blocks_text(a));
    } else {
        lemma_responses_blocks_text_append(a, b.drop_last());
        assert((a + b).drop_last() =~= a + b.drop_last());
        assert((a + b).last() == b.last());
        let t = match responses_block_text(b.last()) {
            Some(t) => seq![t],
            None => Seq::<Seq<char>>::empty(),
        };
        assert(responses_blocks_text(a) + responses_blocks_text(b.drop_last()) + t
            =~= responses_blocks_text(a) + (responses_blocks_text(b.drop_last()) + t));
    }
}

/// The Chat chunk text for one block of a Responses stream, if it gives one.
pub fn responses_block_to_chat(block: &Vec<u8>) -> (r: Option<String>)
    ensures
        match r {
            Some(t) => responses_block_text(block@) == Some(t@),
            None => responses_block_text(block@) is None,
        },
{
    let input = match read_responses_block(block) {
        Some(i) => i,
        None => return None,
    };
    let payload = match &input {
        ResponsesSseInput::Data { event: _, data } => parse_json(data.as_str()),
        ResponsesSseInput::Done => None,
    };
    match responses_input_to_chat(&input, payload.as_ref()) {
        Some(f) => Some(render_frame(&f)),
        None => None,
    }
}

/// Appends a chunk of a Responses stream to `buffer` and gives the Chat
/// chunk texts of every block that is then complete, leaving the incomplete
/// rest in `buffer`.
pub fn responses_bytes_to_chat(buffer: &mut SseBuffer, bytes: &[u8]) -> (r: Vec<String>)
    ensures
        texts_view(r@) == responses_blocks_text(blocks(old(buffer)@ + bytes@).0),
        final(buffer)@ == blocks(old(buffer)@ + bytes@).1,
{
    let ghost all = old(buffer)@ + bytes@;
    buffer.push_bytes(bytes);
    let mut out: Vec<String> = Vec::new();
    let ghost mut done: Seq<Seq<u8>> = seq![];
    assert(done + blocks(buffer@).0 =~= blocks(buffer@).0);
    assert(texts_view(out@) =~= Seq::<Seq<char>>::empty());
    loop
        invariant
            blocks(all) == (done + blocks(buffer@).0, blocks(buffer@).1),
            responses_blocks_text(done) == texts_view(out@),
        ensures
            blocks(all) == (done, buffer@),
            responses_blocks_text(done) == texts_view(out@),
        decreases buffer@.len(),
    {
        let ghost before = buffer@;
        match buffer.take_block() {
            None => {
                assert(blocks(before).0 =~= Seq::<Seq<u8>>::empty());
                assert(done + blocks(before).0 =~= done);
                break;
            },
            Some(b) => {
                proof {
                    lemma_blocks_step(before);
                    assert(done + blocks(before).0 =~= done.push(b@) + blocks(buffer@).0);
                    assert(done.push(b@).drop_last() =~= done);
                }
                let t = responses_block_to_chat(&b);
                let ghost t0 = out@;
                if let Some(t) = t {
                    out.push(t);
                }
                proof {
                    assert(texts_view(out@) =~= responses_blocks_text(done.push(b@)));
                    done = done.push(b@);
                }
            },
        }
    }
    out
}

} // verus!
