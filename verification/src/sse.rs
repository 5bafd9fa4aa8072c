use crate::text::text_eq;
use vstd::prelude::*;
use vstd::utf8::{decode_utf8, valid_utf8};

verus! {

// ---------------------------------------------------------------------------
// Splitting a byte stream into event blocks
// ---------------------------------------------------------------------------

/// A blank line `\n\n` starts at `i`.
pub open spec fn lf_sep_at(s: Seq<u8>, i: int) -> bool {
    0 <= i && i + 2 <= s.len() && s[i] == 10u8 && s[i + 1] == 10u8
}

/// A blank line `\r\n\r\n` starts at `i`.
pub open spec fn crlf_sep_at(s: Seq<u8>, i: int) -> bool {
    0 <= i && i + 4 <= s.len() && s[i] == 13u8 && s[i + 1] == 10u8 && s[i + 2] == 13u8 && s[i
        + 3] == 10u8
}

/// A block separator starts at `i`.
pub open spec fn sep_at(s: Seq<u8>, i: int) -> bool {
    lf_sep_at(s, i) || crlf_sep_at(s, i)
}

/// The length of the separator that starts at `i`.
pub open spec fn sep_len(s: Seq<u8>, i: int) -> int {
    if crlf_sep_at(s, i) {
        4
    } else {
        2
    }
}

/// The first position at or after `i` where a separator starts.
pub open spec fn first_sep_from(s: Seq<u8>, i: int) -> Option<int>
    decreases s.len() - i,
{
    if i < 0 || i + 2 > s.len() {
        None
    } else if sep_at(s, i) {
        Some(i)
    } else {
        first_sep_from(s, i + 1)
    }
}

/// The first complete block of `s` and what follows its separator.
pub open spec fn next_block(s: Seq<u8>) -> Option<(Seq<u8>, Seq<u8>)> {
    match first_sep_from(s, 0) {
        Some(p) => Some((s.take(p), s.skip(p + sep_len(s, p)))),
        None => None,
    }
}

/// All complete blocks of `s`, in order, and the incomplete rest.
pub open spec fn blocks(s: Seq<u8>) -> (Seq<Seq<u8>>, Seq<u8>)
    decreases s.len(),
{
    match next_block(s) {
        Some((b, rest)) => if rest.len() < s.len() {
            let (bs, r) = blocks(rest);
            (seq![b] + bs, r)
        } else {
            (seq![], s)
        },
        None => (seq![], s),
    }
}

pub proof fn lemma_first_sep_from(s: Seq<u8>, i: int)
    requires
        0 <= i,
    ensures
        match first_sep_from(s, i) {
            Some(p) => i <= p && sep_at(s, p) && forall|j: int| i <= j < p ==> !sep_at(s, j),
            None => forall|j: int| i <= j ==> !sep_at(s, j),
        },
    decreases s.len() - i,
{
    if i + 2 <= s.len() && !sep_at(s, i) {
        lemma_first_sep_from(s, i + 1);
    }
}

/// The first separator of `s` is also the first separator of `s + t`.
proof fn lemma_next_block_extend(s: Seq<u8>, t: Seq<u8>)
    requires
        next_block(s) is Some,
    ensures
        next_block(s + t) == Some((next_block(s).unwrap().0, next_block(s).unwrap().1 + t)),
{
    let u = s + t;
    lemma_first_sep_from(s, 0);
    lemma_first_sep_from(u, 0);
    let p = first_sep_from(s, 0).unwrap();
    assert(sep_at(u, p));
    assert forall|j: int| 0 <= j < p implies !sep_at(u, j) by {
        assert(!sep_at(s, j));
        if lf_sep_at(u, j) {
            assert(u[j] == s[j]);
        }
        if crlf_sep_at(u, j) {
            assert(u[j] == s[j]);
        }
    }
    match first_sep_from(u, 0) {
        Some(q) => {
            assert(!(q < p));
            assert(!(p < q));
        },
        None => {},
    }
    assert(sep_len(u, p) == sep_len(s, p));
    assert(u.take(p) =~= s.take(p));
    assert(u.skip(p + sep_len(u, p)) =~= s.skip(p + sep_len(s, p)) + t);
}

/// Feeding the stream in two pieces yields the same blocks as feeding it at
/// once: the blocks of `a + b` are the blocks of `a` followed by the blocks
/// of what `a` left over, with `b` appended to it.
pub proof fn law_blocks_of_concatenation(a: Seq<u8>, b: Seq<u8>)
    ensures
        blocks(a + b) == (blocks(a).0 + blocks(blocks(a).1 + b).0, blocks(blocks(a).1 + b).1),
    decreases a.len(),
{
    match next_block(a) {
        Some((blk, rest)) => {
            lemma_first_sep_from(a, 0);
            assert(rest.len() < a.len());
            lemma_next_block_extend(a, b);
            assert((rest + b).len() < (a + b).len());
            law_blocks_of_concatenation(rest, b);
            assert(blocks(a + b).0 =~= seq![blk] + blocks(rest + b).0);
            assert(blocks(a).0 + blocks(blocks(a).1 + b).0 =~= seq![blk] + (blocks(rest).0 + blocks(
                blocks(rest).1 + b,
            ).0));
        },
        None => {
            assert(blocks(a).0 =~= Seq::<Seq<u8>>::empty());
            assert(blocks(a).0 + blocks(a + b).0 =~= blocks(a + b).0);
        },
    }
}

/// The bytes of an event stream that have arrived but not yet formed a
/// complete block.
pub struct SseBuffer {
    buf: Vec<u8>,
}

impl View for SseBuffer {
    type V = Seq<u8>;

    closed spec fn view(&self) -> Seq<u8> {
        self.buf@
    }
}

fn copy_range(v: &Vec<u8>, lo: usize, hi: usize) -> (r: Vec<u8>)
    requires
        lo <= hi <= v@.len(),
    ensures
        r@ == v@.subrange(lo as int, hi as int),
{
    let mut out: Vec<u8> = Vec::new();
    let mut i = lo;
    while i < hi
        invariant
            lo <= i <= hi <= v@.len(),
            out@ == v@.subrange(lo as int, i as int),
        decreases hi - i,
    {
        out.push(v[i]);
        i += 1;
        assert(out@ =~= v@.subrange(lo as int, i as int));
    }
    out
}

impl SseBuffer {
    pub fn new() -> (r: SseBuffer)
        ensures
            r@ == Seq::<u8>::empty(),
    {
        SseBuffer { buf: Vec::new() }
    }

    /// Appends the bytes of a chunk of the stream.
    pub fn push_bytes(&mut self, bytes: &[u8])
        ensures
            final(self)@ == old(self)@ + bytes@,
    {
        let ghost start = self.buf@;
        let mut i: usize = 0;
        while i < bytes.len()
            invariant
                i <= bytes@.len(),
                self.buf@ == start + bytes@.take(i as int),
            decreases bytes@.len() - i,
        {
            self.buf.push(bytes[i]);
            i += 1;
            assert(self.buf@ =~= start + bytes@.take(i as int));
        }
        assert(bytes@.take(bytes@.len() as int) =~= bytes@);
    }

    /// Removes the first complete block, with its separator, and returns it.
    pub fn take_block(&mut self) -> (r: Option<Vec<u8>>)
        ensures
            match r {
                Some(b) => next_block(old(self)@) == Some((b@, final(self)@)),
                None => next_block(old(self)@) is None && final(self)@ == old(self)@,
            },
    {
        match find_separator(&self.buf) {
            Some((p, len)) => {
                let n = self.buf.len();
                let block = copy_range(&self.buf, 0, p);
                let rest = copy_range(&self.buf, p + len, n);
                assert(block@ =~= old(self)@.take(p as int));
                assert(rest@ =~= old(self)@.skip(p + len));
                self.buf = rest;
                Some(block)
            },
            None => None,
        }
    }
}

/// The position and length of the first separator in `s`.
fn find_separator(s: &Vec<u8>) -> (r: Option<(usize, usize)>)
    ensures
        match r {
            Some((p, len)) => first_sep_from(s@, 0) == Some(p as int) && len == sep_len(s@, p as int)
                && p + len <= s@.len(),
            None => first_sep_from(s@, 0) is None,
        },
{
    let n = s.len();
    let mut i: usize = 0;
    while i < n && n - i >= 2
        invariant
            i <= n,
            n == s@.len(),
            first_sep_from(s@, 0) == first_sep_from(s@, i as int),
        decreases n - i,
    {
        if s[i] == 10u8 && s[i + 1] == 10u8 {
            assert(first_sep_from(s@, i as int) == Some(i as int));
            return Some((i, 2));
        }
        if n - i >= 4 && s[i] == 13u8 && s[i + 1] == 10u8 && s[i + 2] == 13u8 && s[i + 3] == 10u8 {
            assert(first_sep_from(s@, i as int) == Some(i as int));
            return Some((i, 4));
        }
        assert(!sep_at(s@, i as int));
        i += 1;
    }
    assert(first_sep_from(s@, i as int) is None);
    None
}


// ---------------------------------------------------------------------------
// Lines and fields of a block
// ---------------------------------------------------------------------------

/// The first position at or after `i` that holds a line feed.
pub open spec fn first_lf_from(s: Seq<u8>, i: int) -> Option<int>
    decreases s.len() - i,
{
    if i < 0 || i >= s.len() {
        None
    } else if s[i] == 10u8 {
        Some(i)
    } else {
        first_lf_from(s, i + 1)
    }
}

/// A line without the carriage return that ended it.
pub open spec fn strip_cr(l: Seq<u8>) -> Seq<u8> {
    if l.len() > 0 && l.last() == 13u8 {
        l.drop_last()
    } else {
        l
    }
}

/// The lines of `s` from position `start` on, as `str::lines` splits them:
/// at each line feed, dropping a carriage return just before it; a last
/// line without a line feed is kept as it is.
pub open spec fn lines_from(s: Seq<u8>, start: int) -> Seq<Seq<u8>>
    decreases s.len() - start,
{
    if start < 0 || start >= s.len() {
        seq![]
    } else {
        match first_lf_from(s, start) {
            Some(j) => if start <= j < s.len() {
                seq![strip_cr(s.subrange(start, j))] + lines_from(s, j + 1)
            } else {
                seq![]
            },
            None => seq![s.subrange(start, s.len() as int)],
        }
    }
}

pub open spec fn lines(s: Seq<u8>) -> Seq<Seq<u8>> {
    lines_from(s, 0)
}

/// The bytes of the field name `data`.
pub open spec fn data_field() -> Seq<u8> {
    seq![100u8, 97u8, 116u8, 97u8]
}

/// The bytes of the field name `event`.
pub open spec fn event_field() -> Seq<u8> {
    seq![101u8, 118u8, 101u8, 110u8, 116u8]
}

/// The value of field `name` on `line`: what follows `name:`, less one
/// leading space.
pub open spec fn field_value(line: Seq<u8>, name: Seq<u8>) -> Option<Seq<u8>> {
    if line.len() > name.len() && line.take(name.len() as int) == name && line[name.len() as int]
        == 58u8 {
        let rest = line.skip(name.len() as int + 1);
        Some(
            if rest.len() > 0 && rest[0] == 32u8 {
                rest.skip(1)
            } else {
                rest
            },
        )
    } else {
        None
    }
}

/// The value of the first line that holds field `name`.
pub open spec fn first_field(ls: Seq<Seq<u8>>, name: Seq<u8>) -> Option<Seq<u8>>
    decreases ls.len(),
{
    if ls.len() == 0 {
        None
    } else {
        match field_value(ls[0], name) {
            Some(v) => Some(v),
            None => first_field(ls.drop_first(), name),
        }
    }
}

/// The value of the last line that holds field `name`.
pub open spec fn last_field(ls: Seq<Seq<u8>>, name: Seq<u8>) -> Option<Seq<u8>>
    decreases ls.len(),
{
    if ls.len() == 0 {
        None
    } else {
        match field_value(ls.last(), name) {
            Some(v) => Some(v),
            None => last_field(ls.drop_last(), name),
        }
    }
}

pub open spec fn lines_view(ls: Seq<Vec<u8>>) -> Seq<Seq<u8>> {
    ls.map_values(|l: Vec<u8>| l@)
}

/// Splits a block into its lines.
fn split_lines(s: &Vec<u8>) -> (r: Vec<Vec<u8>>)
    ensures
        lines_view(r@) == lines(s@),
{
    let n = s.len();
    let mut out: Vec<Vec<u8>> = Vec::new();
    let mut pos: usize = 0;
    while pos < n
        invariant
            pos <= n,
            n == s@.len(),
            lines(s@) == lines_view(out@) + lines_from(s@, pos as int),
        decreases n - pos,
    {
        let mut j = pos;
        while j < n && s[j] != 10u8
            invariant
                pos <= j <= n,
                n == s@.len(),
                first_lf_from(s@, pos as int) == first_lf_from(s@, j as int),
            decreases n - j,
        {
            j += 1;
        }
        let ghost old_out = lines_view(out@);
        if j < n {
            let mut line = copy_range(s, pos, j);
            if j > pos && s[j - 1] == 13u8 {
                line = copy_range(s, pos, j - 1);
                assert(line@ =~= strip_cr(s@.subrange(pos as int, j as int)));
            } else {
                assert(line@ =~= strip_cr(s@.subrange(pos as int, j as int)));
            }
            out.push(line);
            assert(lines_from(s@, pos as int) == seq![line@] + lines_from(s@, j + 1));
            assert(lines_view(out@) =~= old_out.push(line@));
            pos = j + 1;
        } else {
            let line = copy_range(s, pos, n);
            out.push(line);
            assert(lines_from(s@, pos as int) == seq![line@]);
            assert(lines_view(out@) =~= old_out.push(line@));
            pos = n;
        }
        assert(lines(s@) =~= lines_view(out@) + lines_from(s@, pos as int));
    }
    assert(lines(s@) =~= lines_view(out@));
    out
}

fn field_value_exec(line: &Vec<u8>, name: &Vec<u8>) -> (r: Option<Vec<u8>>)
    ensures
        match r {
            Some(v) => field_value(line@, name@) == Some(v@),
            None => field_value(line@, name@) is None,
        },
{
    let m = name.len();
    let n = line.len();
    if n <= m {
        return None;
    }
    let mut k: usize = 0;
    while k < m
        invariant
            k <= m < n,
            m == name@.len(),
            n == line@.len(),
            forall|t: int| 0 <= t < k ==> line@[t] == name@[t],
        decreases m - k,
    {
        if line[k] != name[k] {
            assert(line@.take(m as int)[k as int] != name@[k as int]);
            return None;
        }
        k += 1;
    }
    assert(line@.take(m as int) =~= name@);
    if line[m] != 58u8 {
        return None;
    }
    if m + 1 < n && line[m + 1] == 32u8 {
        let v = copy_range(line, m + 2, n);
        assert(v@ =~= line@.skip(m + 1).skip(1));
        Some(v)
    } else {
        let v = copy_range(line, m + 1, n);
        assert(v@ =~= line@.skip(m + 1));
        Some(v)
    }
}

fn first_field_exec(ls: &Vec<Vec<u8>>, name: &Vec<u8>) -> (r: Option<Vec<u8>>)
    ensures
        match r {
            Some(v) => first_field(lines_view(ls@), name@) == Some(v@),
            None => first_field(lines_view(ls@), name@) is None,
        },
{
    let ghost lv = lines_view(ls@);
    let mut i: usize = 0;
    assert(lv.skip(0) =~= lv);
    while i < ls.len()
        invariant
            i <= ls@.len(),
            lv == lines_view(ls@),
            first_field(lv, name@) == first_field(lv.skip(i as int), name@),
        decreases ls@.len() - i,
    {
        assert(lv.skip(i as int).drop_first() =~= lv.skip(i + 1));
        assert(lv.skip(i as int)[0] == ls@[i as int]@);
        if let Some(v) = field_value_exec(&ls[i], name) {
            return Some(v);
        }
        i += 1;
    }
    None
}

fn last_field_exec(ls: &Vec<Vec<u8>>, name: &Vec<u8>) -> (r: Option<Vec<u8>>)
    ensures
        match r {
            Some(v) => last_field(lines_view(ls@), name@) == Some(v@),
            None => last_field(lines_view(ls@), name@) is None,
        },
{
    let ghost lv = lines_view(ls@);
    let mut i: usize = ls.len();
    assert(lv.take(lv.len() as int) =~= lv);
    while i > 0
        invariant
            i <= ls@.len(),
            lv == lines_view(ls@),
            last_field(lv, name@) == last_field(lv.take(i as int), name@),
        decreases i,
    {
        assert(lv.take(i as int).drop_last() =~= lv.take(i - 1));
        assert(lv.take(i as int).last() == ls@[i - 1]@);
        if let Some(v) = field_value_exec(&ls[i - 1], name) {
            return Some(v);
        }
        i -= 1;
    }
    None
}

// ---------------------------------------------------------------------------
// Text of a field
// ---------------------------------------------------------------------------

/// Unicode `White_Space`, the whitespace that `str::trim` removes.
pub open spec fn is_white_space(c: char) -> bool {
    let n = c as u32;
    (9 <= n <= 13) || n == 32 || n == 0x85 || n == 0xA0 || n == 0x1680 || (0x2000 <= n <= 0x200A)
        || n == 0x2028 || n == 0x2029 || n == 0x202F || n == 0x205F || n == 0x3000
}

pub open spec fn trim_start(s: Seq<char>) -> Seq<char>
    decreases s.len(),
{
    if s.len() > 0 && is_white_space(s[0]) {
        trim_start(s.drop_first())
    } else {
        s
    }
}

pub open spec fn trim_end(s: Seq<char>) -> Seq<char>
    decreases s.len(),
{
    if s.len() > 0 && is_white_space(s.last()) {
        trim_end(s.drop_last())
    } else {
        s
    }
}

/// `s` without leading and trailing whitespace.
pub open spec fn trim(s: Seq<char>) -> Seq<char> {
    trim_end(trim_start(s))
}

fn is_white_space_char(c: char) -> (r: bool)
    ensures
        r == is_white_space(c),
{
    let n = c as u32;
    (9 <= n && n <= 13) || n == 32 || n == 0x85 || n == 0xA0 || n == 0x1680 || (0x2000 <= n && n
        <= 0x200A) || n == 0x2028 || n == 0x2029 || n == 0x202F || n == 0x205F || n == 0x3000
}

/// `s` without leading and trailing whitespace.
fn trim_text(s: &str) -> (r: &str)
    ensures
        r@ == trim(s@),
{
    let n = s.unicode_len();
    let mut i: usize = 0;
    assert(s@.subrange(0, n as int) =~= s@);
    while i < n && is_white_space_char(s.get_char(i))
        invariant
            i <= n,
            n == s@.len(),
            trim_start(s@) == trim_start(s@.subrange(i as int, n as int)),
        decreases n - i,
    {
        proof {
            let t = s@.subrange(i as int, n as int);
            assert(t[0] == s@[i as int]);
            assert(t.drop_first() =~= s@.subrange(i + 1, n as int));
        }
        i = i + 1;
    }
    proof {
        let t = s@.subrange(i as int, n as int);
        if i < n {
            assert(t[0] == s@[i as int]);
        }
        assert(trim_start(t) == t);
    }
    let mut j: usize = n;
    while j > i && is_white_space_char(s.get_char(j - 1))
        invariant
            i <= j <= n,
            n == s@.len(),
            trim(s@) == trim_end(s@.subrange(i as int, j as int)),
        decreases j - i,
    {
        proof {
            let t = s@.subrange(i as int, j as int);
            assert(t.last() == s@[j - 1]);
            assert(t.drop_last() =~= s@.subrange(i as int, j - 1));
        }
        j = j - 1;
    }
    proof {
        let t = s@.subrange(i as int, j as int);
        if j > i {
            assert(t.last() == s@[j - 1]);
        }
        assert(trim_end(t) == t);
    }
    s.substring_char(i, j)
}

/// The text `String::from_utf8_lossy` makes of `bytes`.
pub uninterp spec fn utf8_lossy(bytes: Seq<u8>) -> Seq<char>;

/// `String::from_utf8_lossy` from std, made an owned string: the text of
/// the bytes, with U+FFFD in place of each invalid sequence. The contract
/// names the result and states that valid UTF-8 is decoded as it is; what
/// is put in place of invalid sequences is left unsaid.
#[verifier::external_body]
fn text_from_bytes(bytes: &[u8]) -> (r: String)
    ensures
        r@ == utf8_lossy(bytes@),
        valid_utf8(bytes@) ==> r@ == decode_utf8(bytes@),
{
    String::from_utf8_lossy(bytes).into_owned()
}

// ---------------------------------------------------------------------------
// What a block carries
// ---------------------------------------------------------------------------

/// What a block of a Chat event stream carries: the end marker or a payload.
#[derive(Debug)]
pub enum ChatSseInput {
    Done,
    Data(String),
}

/// What a block of a Responses event stream carries: the end marker or an
/// event name with a payload.
#[derive(Debug)]
pub enum ResponsesSseInput {
    Done,
    Data { event: String, data: String },
}

pub enum ChatInputV {
    Done,
    Data(Seq<char>),
}

pub enum ResponsesInputV {
    Done,
    Data { event: Seq<char>, data: Seq<char> },
}

impl View for ChatSseInput {
    type V = ChatInputV;

    open spec fn view(&self) -> ChatInputV {
        match self {
            ChatSseInput::Done => ChatInputV::Done,
            ChatSseInput::Data(d) => ChatInputV::Data(d@),
        }
    }
}

impl View for ResponsesSseInput {
    type V = ResponsesInputV;

    open spec fn view(&self) -> ResponsesInputV {
        match self {
            ResponsesSseInput::Done => ResponsesInputV::Done,
            ResponsesSseInput::Data { event, data } => ResponsesInputV::Data {
                event: event@,
                data: data@,
            },
        }
    }
}

/// Whether a payload is the end marker `[DONE]`, whitespace aside.
pub open spec fn is_done_marker(data: Seq<char>) -> bool {
    trim(data) == "[DONE]"@
}

/// What the text of a Chat `data` field stands for.
pub open spec fn chat_input(data: Seq<char>) -> ChatInputV {
    if is_done_marker(data) {
        ChatInputV::Done
    } else {
        ChatInputV::Data(data)
    }
}

/// What a block of a Chat event stream carries: judged by its first `data`
/// line; a block without one carries nothing.
pub open spec fn chat_block_input(block: Seq<u8>) -> Option<ChatInputV> {
    match first_field(lines(block), data_field()) {
        Some(d) => Some(chat_input(utf8_lossy(d))),
        None => None,
    }
}

/// What a Responses event stream block with event name `event` (already
/// trimmed) and `data` text stands for.
pub open spec fn responses_input(event: Seq<char>, data: Seq<char>) -> ResponsesInputV {
    if is_done_marker(data) {
        ResponsesInputV::Done
    } else {
        ResponsesInputV::Data { event, data }
    }
}

/// What a block of a Responses event stream carries: judged by its last
/// `data` line, with the trimmed value of its last `event` line (or an
/// empty name); a block without a `data` line carries nothing.
pub open spec fn responses_block_input(block: Seq<u8>) -> Option<ResponsesInputV> {
    match last_field(lines(block), data_field()) {
        Some(d) => Some(
            responses_input(
                match last_field(lines(block), event_field()) {
                    Some(e) => trim(utf8_lossy(e)),
                    None => ""@,
                },
                utf8_lossy(d),
            ),
        ),
        None => None,
    }
}

fn is_done_marker_exec(data: &str) -> (r: bool)
    ensures
        r == is_done_marker(data@),
{
    text_eq(trim_text(data), "[DONE]")
}

/// What the text of a Chat `data` field stands for.
pub fn classify_chat_data(data: String) -> (r: ChatSseInput)
    ensures
        r@ == chat_input(data@),
{
    if is_done_marker_exec(data.as_str()) {
        ChatSseInput::Done
    } else {
        ChatSseInput::Data(data)
    }
}

/// What a Responses event stream block with the (trimmed) event name
/// `event` and the `data` text stands for.
pub fn classify_responses_data(event: String, data: String) -> (r: ResponsesSseInput)
    ensures
        r@ == responses_input(event@, data@),
{
    if is_done_marker_exec(data.as_str()) {
        ResponsesSseInput::Done
    } else {
        ResponsesSseInput::Data { event, data }
    }
}

fn data_field_exec() -> (r: Vec<u8>)
    ensures
        r@ == data_field(),
{
    let r = vec![100u8, 97u8, 116u8, 97u8];
    assert(r@ =~= data_field());
    r
}

fn event_field_exec() -> (r: Vec<u8>)
    ensures
        r@ == event_field(),
{
    let r = vec![101u8, 118u8, 101u8, 110u8, 116u8];
    assert(r@ =~= event_field());
    r
}

/// What a block of a Chat event stream carries.
pub fn read_chat_block(block: &Vec<u8>) -> (r: Option<ChatSseInput>)
    ensures
        match r {
            Some(x) => chat_block_input(block@) == Some(x@),
            None => chat_block_input(block@) is None,
        },
{
    let ls = split_lines(block);
    match first_field_exec(&ls, &data_field_exec()) {
        Some(d) => Some(classify_chat_data(text_from_bytes(d.as_slice()))),
        None => None,
    }
}

/// What a block of a Responses event stream carries.
pub fn read_responses_block(block: &Vec<u8>) -> (r: Option<ResponsesSseInput>)
    ensures
        match r {
            Some(x) => responses_block_input(block@) == Some(x@),
            None => responses_block_input(block@) is None,
        },
{
    let ls = split_lines(block);
    let data = match last_field_exec(&ls, &data_field_exec()) {
        Some(d) => d,
        None => return None,
    };
    let event = match last_field_exec(&ls, &event_field_exec()) {
        Some(e) => {
            let t = text_from_bytes(e.as_slice());
            trim_text(t.as_str()).to_owned()
        },
        None => "".to_owned(),
    };
    Some(classify_responses_data(event, text_from_bytes(data.as_slice())))
}

} // verus!
