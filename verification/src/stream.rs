//! Streamed replies: server-sent events are cut out of the bytes as they arrive,
//! and their deltas are put together to a reply.
use vstd::prelude::*;
use vstd::utf8::{decode_utf8, valid_utf8};

use crate::llm::{
    arguments_of, call_views, parse_arguments, CallView, LlmResponse, ResponseView, ToolCallRequest,
};
use crate::numbers::{dec, decimal};
use crate::text::{
    after_prefix, begins, cat, from_utf8_lossy, is_space, lossy, opt, str_eq, strip_prefix, texts,
    trim, trimmed, trimming_takes_white_space_only, white_space_around_a_text_is_trimmed,
};

verus! {

/// How many bytes stand before the first line feed, or all of them.
pub open spec fn line_len(b: Seq<u8>) -> int
    decreases b.len(),
{
    if b.len() == 0 || b[0] == 10 {
        0
    } else {
        1 + line_len(b.drop_first())
    }
}

/// The first line, with its line feed, and what follows, where there is a line
/// feed.
pub open spec fn first_line(b: Seq<u8>) -> Option<(Seq<u8>, Seq<u8>)> {
    let n = line_len(b);
    if 0 <= n < b.len() {
        Some((b.take(n + 1), b.skip(n + 1)))
    } else {
        None
    }
}

/// The lines that are complete, each with its line feed.
pub open spec fn complete_lines(b: Seq<u8>) -> Seq<Seq<u8>>
    decreases b.len(),
{
    match first_line(b) {
        Some((line, rest)) => if rest.len() < b.len() {
            seq![line] + complete_lines(rest)
        } else {
            seq![]
        },
        None => seq![],
    }
}

/// What follows the last line feed.
pub open spec fn remainder(b: Seq<u8>) -> Seq<u8>
    decreases b.len(),
{
    match first_line(b) {
        Some((line, rest)) => if rest.len() < b.len() {
            remainder(rest)
        } else {
            b
        },
        None => b,
    }
}

/// The first line feed is where `line_len` says.
proof fn lemma_line_len(b: Seq<u8>)
    ensures
        0 <= line_len(b) <= b.len(),
        line_len(b) < b.len() ==> b[line_len(b)] == 10,
        forall|i: int| 0 <= i < line_len(b) ==> b[i] != 10,
    decreases b.len(),
{
    if b.len() > 0 && b[0] != 10 {
        let t = b.drop_first();
        lemma_line_len(t);
        assert forall|i: int| 0 <= i < line_len(b) implies b[i] != 10 by {
            if i > 0 {
                assert(b[i] == t[i - 1]);
            }
        }
    }
}

/// Where the first line feed is, is fixed by what is before it.
proof fn lemma_line_len_is(b: Seq<u8>, n: int)
    requires
        0 <= n <= b.len(),
        n < b.len() ==> b[n] == 10,
        forall|i: int| 0 <= i < n ==> b[i] != 10,
    ensures
        line_len(b) == n,
{
    lemma_line_len(b);
    let m = line_len(b);
    if m < n {
        assert(b[m] != 10);
    }
    if n < m {
        assert(b[n] != 10);
    }
}

/// How the bytes of a stream are cut into chunks does not matter: the lines that
/// are complete after a second chunk are those of the first, then those of what
/// the first left over and the second; and the same bytes are left over.
pub proof fn chunks_do_not_matter(a: Seq<u8>, b: Seq<u8>)
    ensures
        complete_lines(a + b) == complete_lines(a) + complete_lines(remainder(a) + b),
        remainder(a + b) == remainder(remainder(a) + b),
    decreases a.len(),
{
    lemma_line_len(a);
    let n = line_len(a);
    if n < a.len() {
        lemma_line_len_is(a + b, n);
        let rest = a.skip(n + 1);
        assert((a + b).take(n + 1) =~= a.take(n + 1));
        assert((a + b).skip(n + 1) =~= rest + b);
        chunks_do_not_matter(rest, b);
        assert(complete_lines(a + b) =~= complete_lines(a) + complete_lines(remainder(a) + b));
    } else {
        assert(first_line(a) is None);
        assert(complete_lines(a) =~= seq![]);
        assert(complete_lines(a + b) =~= complete_lines(a) + complete_lines(remainder(a) + b));
    }
}

/// What a line of the stream is.
pub enum EventView {
    /// A blank line, a comment or a field that is not looked at.
    Skip,
    /// The end of the stream.
    Done,
    /// A document.
    Data(Seq<char>),
}

/// What a line of the stream is, told by its text.
pub open spec fn text_event(line: Seq<char>) -> EventView {
    let t = trimmed(line);
    if t.len() == 0 || t[0] == ':' {
        EventView::Skip
    } else {
        match after_prefix(t, "data:"@) {
            None => EventView::Skip,
            Some(rest) => if trimmed(rest) == "[DONE]"@ {
                EventView::Done
            } else {
                EventView::Data(trimmed(rest))
            },
        }
    }
}

/// What a line of the stream is.
#[derive(Debug)]
pub enum SseEvent {
    Skip,
    Done,
    Data(String),
}

impl View for SseEvent {
    type V = EventView;

    open spec fn view(&self) -> EventView {
        match self {
            SseEvent::Skip => EventView::Skip,
            SseEvent::Done => EventView::Done,
            SseEvent::Data(s) => EventView::Data(s@),
        }
    }
}

/// What a line of the stream is, told by its text.
pub fn read_event(line: &str) -> (r: SseEvent)
    ensures
        r@ == text_event(line@),
{
    let t = trim(line);
    if t.as_str().is_empty() || t.as_str().get_char(0) == ':' {
        return SseEvent::Skip;
    }
    match strip_prefix(t.as_str(), "data:") {
        None => SseEvent::Skip,
        Some(rest) => {
            let data = trim(rest.as_str());
            if str_eq(data.as_str(), "[DONE]") {
                SseEvent::Done
            } else {
                SseEvent::Data(data)
            }
        },
    }
}

/// A delta of a streamed reply.
#[derive(Debug)]
pub struct StreamChunk {
    pub choices: Vec<StreamChoice>,
}

/// One of the answers that a delta goes on with.
#[derive(Debug)]
pub struct StreamChoice {
    pub delta: StreamDelta,
}

/// What a delta adds: a piece of text, and pieces of tool calls.
#[derive(Debug)]
pub struct StreamDelta {
    pub content: Option<String>,
    pub tool_calls: Vec<StreamToolCall>,
}

/// A piece of the tool call with that index.
#[derive(Debug)]
pub struct StreamToolCall {
    pub index: usize,
    pub id: Option<String>,
    pub function: Option<StreamFunction>,
}

/// A piece of a function: its name, or more of its arguments.
#[derive(Debug)]
pub struct StreamFunction {
    pub name: Option<String>,
    pub arguments: String,
}

/// What a piece of a tool call says.
pub struct PieceView {
    pub index: usize,
    pub id: Option<Seq<char>>,
    pub function: Option<(Option<Seq<char>>, Seq<char>)>,
}

impl View for StreamToolCall {
    type V = PieceView;

    open spec fn view(&self) -> PieceView {
        PieceView {
            index: self.index,
            id: opt(self.id),
            function: match self.function {
                Some(f) => Some((opt(f.name), f.arguments@)),
                None => None,
            },
        }
    }
}

/// What a list of pieces says.
pub open spec fn piece_views(v: Seq<StreamToolCall>) -> Seq<PieceView> {
    Seq::new(v.len(), |i: int| v[i]@)
}

/// A tool call as far as it has come.
pub struct PartialView {
    pub index: usize,
    pub id: Seq<char>,
    pub name: Seq<char>,
    pub arguments: Seq<char>,
}

/// A tool call as far as it has come.
#[derive(Debug)]
struct PartialCall {
    index: usize,
    id: String,
    name: String,
    arguments: String,
}

impl View for PartialCall {
    type V = PartialView;

    closed spec fn view(&self) -> PartialView {
        PartialView {
            index: self.index,
            id: self.id@,
            name: self.name@,
            arguments: self.arguments@,
        }
    }
}

/// What a list of unfinished calls says.
spec fn partial_views(v: Seq<PartialCall>) -> Seq<PartialView> {
    Seq::new(v.len(), |i: int| v[i]@)
}

/// Where the call with that index is, or would be: how many calls have a smaller
/// one at the front.
pub open spec fn place(calls: Seq<PartialView>, index: usize) -> int
    decreases calls.len(),
{
    if calls.len() == 0 || calls[0].index >= index {
        0
    } else {
        1 + place(calls.drop_first(), index)
    }
}

/// Whether there is a call with that index.
pub open spec fn has_call(calls: Seq<PartialView>, index: usize) -> bool {
    place(calls, index) < calls.len() && calls[place(calls, index)].index == index
}

/// The calls with that one in its place.
pub open spec fn put_call(calls: Seq<PartialView>, call: PartialView) -> Seq<PartialView> {
    let k = place(calls, call.index);
    if has_call(calls, call.index) {
        calls.update(k, call)
    } else {
        calls.insert(k, call)
    }
}

/// The id of a call: its own, or one made from its index.
pub open spec fn piece_id(piece: PieceView) -> Seq<char> {
    match piece.id {
        Some(id) => id,
        None => "call_"@ + dec(piece.index as nat),
    }
}

/// The calls after one more piece. A piece with a name starts its call anew; a
/// piece without one adds to the arguments; a piece without a function changes
/// nothing.
pub open spec fn add_piece(calls: Seq<PartialView>, piece: PieceView) -> Seq<PartialView> {
    match piece.function {
        None => calls,
        Some((Some(name), arguments)) => put_call(
            calls,
            PartialView { index: piece.index, id: piece_id(piece), name, arguments },
        ),
        Some((None, arguments)) => if has_call(calls, piece.index) {
            let call = calls[place(calls, piece.index)];
            put_call(
                calls,
                PartialView {
                    index: call.index,
                    id: call.id,
                    name: call.name,
                    arguments: call.arguments + arguments,
                },
            )
        } else {
            put_call(
                calls,
                PartialView {
                    index: piece.index,
                    id: piece_id(piece),
                    name: seq![],
                    arguments: Seq::<char>::empty() + arguments,
                },
            )
        },
    }
}

/// The calls after more pieces, one after the other.
pub open spec fn add_pieces(calls: Seq<PartialView>, pieces: Seq<PieceView>) -> Seq<PartialView>
    decreases pieces.len(),
{
    if pieces.len() == 0 {
        calls
    } else {
        add_piece(add_pieces(calls, pieces.drop_last()), pieces.last())
    }
}

/// Calls in the order of their indices, each index once.
pub open spec fn in_order(calls: Seq<PartialView>) -> bool {
    forall|i: int, j: int| 0 <= i < j < calls.len() ==> calls[i].index < calls[j].index
}

/// Where the place of an index is, in calls that are in order.
proof fn lemma_place(calls: Seq<PartialView>, index: usize)
    ensures
        0 <= place(calls, index) <= calls.len(),
        forall|i: int| 0 <= i < place(calls, index) ==> calls[i].index < index,
        place(calls, index) < calls.len() ==> calls[place(calls, index)].index >= index,
    decreases calls.len(),
{
    if calls.len() > 0 && calls[0].index < index {
        let t = calls.drop_first();
        lemma_place(t, index);
        assert forall|i: int| 0 <= i < place(calls, index) implies calls[i].index < index by {
            if i > 0 {
                assert(calls[i] == t[i - 1]);
            }
        }
        if place(calls, index) < calls.len() {
            assert(calls[place(calls, index)] == t[place(t, index)]);
        }
    }
}

/// Putting a call in its place keeps the order, gives the call back under its
/// index, and leaves the calls of other indices as they were.
proof fn lemma_put_call(calls: Seq<PartialView>, call: PartialView)
    requires
        in_order(calls),
    ensures
        in_order(put_call(calls, call)),
        has_call(put_call(calls, call), call.index),
        place(put_call(calls, call), call.index) == place(calls, call.index),
        put_call(calls, call)[place(calls, call.index)] == call,
{
    let k = place(calls, call.index);
    lemma_place(calls, call.index);
    let after = put_call(calls, call);
    assert forall|i: int, j: int| 0 <= i < j < after.len() implies after[i].index
        < after[j].index by {
        if has_call(calls, call.index) {
        } else if k < calls.len() {
            assert(calls[k].index > call.index);
            if j > k {
                assert(after[j] == calls[j - 1]);
            }
            if i > k {
                assert(after[i] == calls[i - 1]);
            }
        }
    }
    assert(after[k] == call);
    lemma_place(after, call.index);
    let m = place(after, call.index);
    if m < k {
        assert(after[m] == calls[m]);
    }
    if m > k {
        assert(after[k].index < call.index);
    }
}

/// However the pieces come, the calls stay in the order of their indices.
pub proof fn pieces_keep_calls_in_order(calls: Seq<PartialView>, pieces: Seq<PieceView>)
    requires
        in_order(calls),
    ensures
        in_order(add_pieces(calls, pieces)),
    decreases pieces.len(),
{
    if pieces.len() > 0 {
        pieces_keep_calls_in_order(calls, pieces.drop_last());
        let before = add_pieces(calls, pieces.drop_last());
        let piece = pieces.last();
        match piece.function {
            None => {},
            Some((Some(name), arguments)) => {
                lemma_put_call(
                    before,
                    PartialView { index: piece.index, id: piece_id(piece), name, arguments },
                );
            },
            Some((None, arguments)) => {
                if has_call(before, piece.index) {
                    let call = before[place(before, piece.index)];
                    lemma_put_call(
                        before,
                        PartialView {
                            index: call.index,
                            id: call.id,
                            name: call.name,
                            arguments: call.arguments + arguments,
                        },
                    );
                } else {
                    lemma_put_call(
                        before,
                        PartialView {
                            index: piece.index,
                            id: piece_id(piece),
                            name: seq![],
                            arguments: Seq::<char>::empty() + arguments,
                        },
                    );
                }
            },
        }
    }
}

/// The texts, one after the other.
pub open spec fn run_together(texts: Seq<Seq<char>>) -> Seq<char>
    decreases texts.len(),
{
    if texts.len() == 0 {
        seq![]
    } else {
        run_together(texts.drop_last()) + texts.last()
    }
}

/// Pieces that go on with the call of that index.
pub open spec fn more_arguments(index: usize, fragments: Seq<Seq<char>>) -> Seq<PieceView> {
    Seq::new(
        fragments.len(),
        |i: int| PieceView { index, id: None, function: Some((None, fragments[i])) },
    )
}

/// A call whose arguments come in fragments ends with its id, its name, and the
/// fragments put together.
pub proof fn fragments_are_put_together(
    calls: Seq<PartialView>,
    index: usize,
    id: Seq<char>,
    name: Seq<char>,
    start: Seq<char>,
    fragments: Seq<Seq<char>>,
)
    requires
        in_order(calls),
    ensures
        ({
            let named = PieceView { index, id: Some(id), function: Some((Some(name), start)) };
            let after = add_pieces(add_piece(calls, named), more_arguments(index, fragments));
            in_order(after) && has_call(after, index) && after[place(after, index)] == (
            PartialView { index, id, name, arguments: start + run_together(fragments) })
        }),
    decreases fragments.len(),
{
    let named = PieceView { index, id: Some(id), function: Some((Some(name), start)) };
    let started = add_piece(calls, named);
    lemma_put_call(calls, PartialView { index, id, name, arguments: start });
    let pieces = more_arguments(index, fragments);
    if fragments.len() == 0 {
        assert(start + run_together(fragments) =~= start);
        assert(add_pieces(started, pieces) == started);
    } else {
        fragments_are_put_together(calls, index, id, name, start, fragments.drop_last());
        assert(pieces.drop_last() =~= more_arguments(index, fragments.drop_last()));
        let before = add_pieces(started, pieces.drop_last());
        let call = before[place(before, index)];
        let longer = PartialView {
            index: call.index,
            id: call.id,
            name: call.name,
            arguments: call.arguments + fragments.last(),
        };
        lemma_put_call(before, longer);
        assert(longer.arguments =~= start + run_together(fragments));
    }
}

/// What has come of a reply: its text, its calls, and the bytes of a line that is
/// not complete.
pub struct StreamView {
    pub text: Seq<char>,
    pub calls: Seq<PartialView>,
    pub buffer: Seq<u8>,
}

/// What the reply is, as far as it has come: calls in the order of their indices
/// where there are any, else the text.
pub open spec fn assembled(v: StreamView) -> ResponseView {
    if v.calls.len() > 0 {
        ResponseView::ToolCalls(
            Seq::new(
                v.calls.len(),
                |i: int|
                    CallView {
                        id: v.calls[i].id,
                        name: v.calls[i].name,
                        arguments: arguments_of(v.calls[i].arguments),
                    },
            ),
        )
    } else {
        ResponseView::Text(v.text)
    }
}

/// The text that a delta adds, where it adds some.
pub open spec fn delta_text(chunk: StreamChunk) -> Option<Seq<char>> {
    if chunk.choices@.len() > 0 {
        opt(chunk.choices@[0].delta.content)
    } else {
        None
    }
}

/// The pieces of tool calls that a delta adds.
pub open spec fn delta_pieces(chunk: StreamChunk) -> Seq<PieceView> {
    if chunk.choices@.len() > 0 {
        piece_views(chunk.choices@[0].delta.tool_calls@)
    } else {
        seq![]
    }
}

/// A reply after one more delta.
pub open spec fn applied(v: StreamView, chunk: StreamChunk) -> StreamView {
    StreamView {
        text: match delta_text(chunk) {
            Some(s) => v.text + s,
            None => v.text,
        },
        calls: add_pieces(v.calls, delta_pieces(chunk)),
        buffer: v.buffer,
    }
}

/// What the complete lines of bytes are.
pub open spec fn events_of(b: Seq<u8>) -> Seq<EventView> {
    Seq::new(complete_lines(b).len(), |i: int| text_event(lossy(complete_lines(b)[i])))
}

/// Whether one of the events is the end of the stream.
pub open spec fn has_done(events: Seq<EventView>) -> bool
    decreases events.len(),
{
    events.len() > 0 && (events[0] is Done || has_done(events.drop_first()))
}

/// The documents before the end of the stream.
pub open spec fn documents(events: Seq<EventView>) -> Seq<Seq<char>>
    decreases events.len(),
{
    if events.len() == 0 {
        seq![]
    } else {
        match events[0] {
            EventView::Done => seq![],
            EventView::Skip => documents(events.drop_first()),
            EventView::Data(d) => seq![d] + documents(events.drop_first()),
        }
    }
}

/// The documents of events that follow other events.
proof fn lemma_documents(a: Seq<EventView>, b: Seq<EventView>)
    ensures
        has_done(a + b) == (has_done(a) || has_done(b)),
        documents(a + b) == (if has_done(a) {
            documents(a)
        } else {
            documents(a) + documents(b)
        }),
    decreases a.len(),
{
    if a.len() == 0 {
        assert(a + b =~= b);
        assert(documents(a) + documents(b) =~= documents(b));
    } else {
        assert((a + b)[0] == a[0]);
        assert((a + b).drop_first() =~= a.drop_first() + b);
        lemma_documents(a.drop_first(), b);
        assert(documents(a + b) =~= (if has_done(a) {
            documents(a)
        } else {
            documents(a) + documents(b)
        }));
    }
}

/// What the first line is, then what the rest are.
proof fn lemma_first_event(b: Seq<u8>)
    ensures
        match first_line(b) {
            Some((line, rest)) => {
                &&& rest.len() < b.len()
                &&& events_of(b)[0] == text_event(lossy(line))
                &&& events_of(b).len() > 0
                &&& events_of(b).drop_first() == events_of(rest)
                &&& remainder(b) == remainder(rest)
            },
            None => events_of(b).len() == 0 && remainder(b) == b,
        },
{
    lemma_line_len(b);
    match first_line(b) {
        Some((line, rest)) => {
            assert(complete_lines(b) == seq![line] + complete_lines(rest));
            assert(complete_lines(b).drop_first() =~= complete_lines(rest));
            assert(events_of(b).drop_first() =~= events_of(rest));
        },
        None => {},
    }
}

/// What was read of a stream: the documents, whether its end was read, and the bytes
/// of a line that is not complete.
pub struct Reading {
    pub documents: Seq<Seq<char>>,
    pub done: bool,
    pub left: Seq<u8>,
}

/// What is read of a stream that comes in chunks. Nothing is read behind its end.
pub open spec fn reading(chunks: Seq<Seq<u8>>) -> Reading
    decreases chunks.len(),
{
    if chunks.len() == 0 {
        Reading { documents: seq![], done: false, left: seq![] }
    } else {
        let before = reading(chunks.drop_last());
        if before.done {
            before
        } else {
            let b = before.left + chunks.last();
            Reading {
                documents: before.documents + documents(events_of(b)),
                done: has_done(events_of(b)),
                left: remainder(b),
            }
        }
    }
}

/// The bytes of chunks, one after the other.
pub open spec fn bytes_of(chunks: Seq<Seq<u8>>) -> Seq<u8>
    decreases chunks.len(),
{
    if chunks.len() == 0 {
        seq![]
    } else {
        bytes_of(chunks.drop_last()) + chunks.last()
    }
}

/// What is read of a stream is what its bytes say, however they come.
proof fn lemma_reading(chunks: Seq<Seq<u8>>)
    ensures
        reading(chunks).documents == documents(events_of(bytes_of(chunks))),
        reading(chunks).done == has_done(events_of(bytes_of(chunks))),
        !reading(chunks).done ==> reading(chunks).left == remainder(bytes_of(chunks)),
    decreases chunks.len(),
{
    if chunks.len() == 0 {
        assert(complete_lines(bytes_of(chunks)) =~= seq![]);
        assert(events_of(bytes_of(chunks)) =~= seq![]);
        assert(reading(chunks).documents =~= documents(events_of(bytes_of(chunks))));
    } else {
        let head = chunks.drop_last();
        let a = bytes_of(head);
        let c = chunks.last();
        let b = remainder(a) + c;
        lemma_reading(head);
        chunks_do_not_matter(a, c);
        assert(events_of(a + c) =~= events_of(a) + events_of(b));
        lemma_documents(events_of(a), events_of(b));
    }
}

/// The deltas that documents stand for, by a way to read them; a document that stands
/// for none is passed over.
pub open spec fn deltas(
    docs: Seq<Seq<char>>,
    parse: spec_fn(Seq<char>) -> Option<StreamChunk>,
) -> Seq<StreamChunk>
    decreases docs.len(),
{
    if docs.len() == 0 {
        seq![]
    } else {
        match parse(docs.last()) {
            Some(chunk) => deltas(docs.drop_last(), parse).push(chunk),
            None => deltas(docs.drop_last(), parse),
        }
    }
}

/// A reply after deltas, one after the other.
pub open spec fn received(v: StreamView, chunks: Seq<StreamChunk>) -> StreamView
    decreases chunks.len(),
{
    if chunks.len() == 0 {
        v
    } else {
        applied(received(v, chunks.drop_last()), chunks.last())
    }
}

/// The texts that deltas add, as they are passed on.
pub open spec fn tokens(chunks: Seq<StreamChunk>) -> Seq<Seq<char>>
    decreases chunks.len(),
{
    if chunks.len() == 0 {
        seq![]
    } else {
        match delta_text(chunks.last()) {
            Some(s) => tokens(chunks.drop_last()).push(s),
            None => tokens(chunks.drop_last()),
        }
    }
}

/// A reply of which nothing has come.
pub open spec fn nothing_yet() -> StreamView {
    StreamView { text: seq![], calls: seq![], buffer: seq![] }
}

/// The text of a reply is what was passed on.
proof fn lemma_text_is_tokens(chunks: Seq<StreamChunk>)
    ensures
        received(nothing_yet(), chunks).text == run_together(tokens(chunks)),
    decreases chunks.len(),
{
    if chunks.len() > 0 {
        lemma_text_is_tokens(chunks.drop_last());
        match delta_text(chunks.last()) {
            Some(s) => {
                let before = tokens(chunks.drop_last());
                assert(before.push(s).drop_last() =~= before);
            },
            None => {},
        }
    }
}

/// Two streams with the same bytes are read alike, wherever their chunks end: the
/// same documents come, the end is read in both or in neither, the same texts are
/// passed on, and the reply is the same. Where the reply is a text, it is the texts
/// that were passed on, put together.
pub proof fn streams_are_read_alike(
    a: Seq<Seq<u8>>,
    b: Seq<Seq<u8>>,
    parse: spec_fn(Seq<char>) -> Option<StreamChunk>,
)
    requires
        bytes_of(a) == bytes_of(b),
    ensures
        reading(a).documents == reading(b).documents,
        reading(a).done == reading(b).done,
        tokens(deltas(reading(a).documents, parse)) == tokens(deltas(reading(b).documents, parse)),
        assembled(received(nothing_yet(), deltas(reading(a).documents, parse))) == assembled(
            received(nothing_yet(), deltas(reading(b).documents, parse)),
        ),
        assembled(received(nothing_yet(), deltas(reading(a).documents, parse))) matches
            ResponseView::Text(text) ==> text == run_together(
            tokens(deltas(reading(a).documents, parse)),
        ),
{
    lemma_reading(a);
    lemma_reading(b);
    lemma_text_is_tokens(deltas(reading(a).documents, parse));
}

/// What a chunk of a stream brought: documents, and whether the stream ended.
#[derive(Debug)]
pub struct Arrival {
    pub documents: Vec<String>,
    pub done: bool,
}

/// A reply that is being streamed.
pub struct StreamReader {
    text: String,
    calls: Vec<PartialCall>,
    buffer: Vec<u8>,
}

impl View for StreamReader {
    type V = StreamView;

    closed spec fn view(&self) -> StreamView {
        StreamView {
            text: self.text@,
            calls: partial_views(self.calls@),
            buffer: self.buffer@,
        }
    }
}

impl StreamReader {
    /// A reply of which nothing has come.
    pub fn new() -> (r: StreamReader)
        ensures
            r@ == nothing_yet(),
    {
        let r = StreamReader { text: String::new(), calls: Vec::new(), buffer: Vec::new() };
        proof {
            assert(r@.text =~= seq![]);
            assert(r@.calls =~= seq![]);
            assert(r@.buffer =~= seq![]);
        }
        r
    }

    /// Takes in bytes as they arrive.
    pub fn push(&mut self, chunk: &[u8])
        ensures
            final(self)@ == (StreamView { buffer: old(self)@.buffer + chunk@, ..old(self)@ }),
    {
        self.buffer.extend_from_slice(chunk);
        proof {
            assert(self@.buffer =~= old(self)@.buffer + chunk@);
        }
    }

    /// Takes the first complete line, where there is one.
    pub fn next_line(&mut self) -> (r: Option<Vec<u8>>)
        ensures
            match first_line(old(self)@.buffer) {
                Some((line, rest)) => r is Some && r->0@ == line && final(self)@ == (StreamView {
                    buffer: rest,
                    ..old(self)@
                }),
                None => r is None && final(self)@ == old(self)@,
            },
    {
        let mut i: usize = 0;
        while i < self.buffer.len() && self.buffer[i] != 10
            invariant
                self@ == old(self)@,
                i <= self.buffer@.len(),
                forall|j: int| 0 <= j < i ==> self.buffer@[j] != 10,
            decreases self.buffer@.len() - i,
        {
            i = i + 1;
        }
        proof {
            lemma_line_len_is(self.buffer@, i as int);
        }
        if i == self.buffer.len() {
            return None;
        }
        let rest = self.buffer.split_off(i + 1);
        let ghost whole = old(self)@.buffer;
        let mut line: Vec<u8> = rest;
        proof {
            assert(line@ =~= whole.skip(i + 1));
            assert(self.buffer@ =~= whole.take(i + 1));
        }
        std::mem::swap(&mut line, &mut self.buffer);
        Some(line)
    }

    /// Takes the first complete line, where there is one, and tells what it is.
    pub fn next_event(&mut self) -> (r: Option<SseEvent>)
        ensures
            match first_line(old(self)@.buffer) {
                Some((line, rest)) => {
                    &&& r is Some
                    &&& r->0@ == text_event(lossy(line))
                    &&& valid_utf8(line) ==> r->0@ == text_event(decode_utf8(line))
                    &&& final(self)@ == (StreamView { buffer: rest, ..old(self)@ })
                },
                None => r is None && final(self)@ == old(self)@,
            },
    {
        match self.next_line() {
            Some(line) => {
                let text = from_utf8_lossy(&line);
                Some(read_event(text.as_str()))
            },
            None => None,
        }
    }

    /// Takes in bytes as they arrive, and all lines that are complete then.
    pub fn arrive(&mut self, chunk: &[u8]) -> (r: Arrival)
        ensures
            ({
                let b = old(self)@.buffer + chunk@;
                &&& texts(r.documents@) == documents(events_of(b))
                &&& r.done == has_done(events_of(b))
                &&& final(self)@ == (StreamView { buffer: remainder(b), ..old(self)@ })
            }),
    {
        self.push(chunk);
        let ghost b = self@.buffer;
        let mut out: Vec<String> = Vec::new();
        let mut done = false;
        proof {
            lemma_first_event(b);
            assert(texts(out@) + documents(events_of(b)) =~= documents(events_of(b)));
        }
        loop
            invariant
                self@.text == old(self)@.text,
                self@.calls == old(self)@.calls,
                remainder(self@.buffer) == remainder(b),
                (done || has_done(events_of(self@.buffer))) == has_done(events_of(b)),
                documents(events_of(b)) == texts(out@) + (if done {
                    Seq::<Seq<char>>::empty()
                } else {
                    documents(events_of(self@.buffer))
                }),
            ensures
                self@ == (StreamView { buffer: remainder(b), ..old(self)@ }),
                done == has_done(events_of(b)),
                documents(events_of(b)) == texts(out@),
            decreases self@.buffer.len(),
        {
            let ghost before = self@.buffer;
            let ghost found = texts(out@);
            proof {
                lemma_first_event(before);
            }
            match self.next_event() {
                None => {
                    proof {
                        assert(found + Seq::<Seq<char>>::empty() =~= found);
                    }
                    break;
                },
                Some(event) => {
                    if !done {
                        match event {
                            SseEvent::Skip => {},
                            SseEvent::Done => {
                                done = true;
                            },
                            SseEvent::Data(text) => {
                                out.push(text);
                                proof {
                                    assert(texts(out@) =~= found.push(text@));
                                    assert(found.push(text@) + documents(events_of(self@.buffer))
                                        =~= found + (seq![text@] + documents(
                                        events_of(self@.buffer),
                                    )));
                                }
                            },
                        }
                    }
                },
            }
        }
        Arrival { documents: out, done }
    }

    /// Adds a delta. What comes back is the text that it adds, where it adds
    /// some.
    pub fn apply(&mut self, chunk: &StreamChunk) -> (r: Option<String>)
        ensures
            opt(r) == delta_text(*chunk),
            final(self)@ == applied(old(self)@, *chunk),
    {
        if chunk.choices.len() == 0 {
            return None;
        }
        let delta = &chunk.choices[0].delta;
        let token = match &delta.content {
            Some(content) => {
                self.text.append(content.as_str());
                Some(content.clone())
            },
            None => None,
        };
        let ghost pieces = delta_pieces(*chunk);
        let ghost text = self@.text;
        proof {
            assert(pieces.take(0) =~= seq![]);
        }
        let mut i: usize = 0;
        while i < delta.tool_calls.len()
            invariant
                i <= delta.tool_calls@.len(),
                pieces == piece_views(delta.tool_calls@),
                self@.text == text,
                self@.buffer == old(self)@.buffer,
                self@.calls == add_pieces(old(self)@.calls, pieces.take(i as int)),
            decreases delta.tool_calls@.len() - i,
        {
            self.add(&delta.tool_calls[i]);
            proof {
                assert(pieces.take(i + 1).drop_last() =~= pieces.take(i as int));
                assert(pieces.take(i + 1).last() == pieces[i as int]);
            }
            i = i + 1;
        }
        proof {
            assert(pieces.take(i as int) =~= pieces);
        }
        token
    }

    /// Where the call with that index is, or would be.
    fn find(&self, index: usize) -> (k: usize)
        ensures
            k == place(self@.calls, index),
            k <= self.calls@.len(),
    {
        let mut k: usize = 0;
        let ghost all = self@.calls;
        proof {
            assert(all.skip(0) =~= all);
        }
        while k < self.calls.len() && self.calls[k].index < index
            invariant
                k <= self.calls@.len(),
                all == self@.calls,
                place(all, index) == k + place(all.skip(k as int), index),
            decreases self.calls@.len() - k,
        {
            proof {
                assert(all.skip(k as int).drop_first() =~= all.skip(k + 1));
            }
            k = k + 1;
        }
        proof {
            if k < self.calls@.len() {
                assert(all.skip(k as int)[0] == all[k as int]);
            }
        }
        k
    }

    /// Adds a piece of a tool call.
    fn add(&mut self, piece: &StreamToolCall)
        ensures
            final(self)@.text == old(self)@.text,
            final(self)@.buffer == old(self)@.buffer,
            final(self)@.calls == add_piece(old(self)@.calls, piece@),
    {
        match &piece.function {
            None => {},
            Some(f) => {
                let k = self.find(piece.index);
                let known = k < self.calls.len() && self.calls[k].index == piece.index;
                let id = match &piece.id {
                    Some(id) => id.clone(),
                    None => cat("call_", decimal(piece.index as u64).as_str()),
                };
                let call = match &f.name {
                    Some(name) => PartialCall {
                        index: piece.index,
                        id,
                        name: name.clone(),
                        arguments: f.arguments.clone(),
                    },
                    None => if known {
                        PartialCall {
                            index: piece.index,
                            id: self.calls[k].id.clone(),
                            name: self.calls[k].name.clone(),
                            arguments: cat(self.calls[k].arguments.as_str(), f.arguments.as_str()),
                        }
                    } else {
                        let mut arguments = String::new();
                        arguments.append(f.arguments.as_str());
                        PartialCall { index: piece.index, id, name: String::new(), arguments }
                    },
                };
                let ghost added = call@;
                proof {
                    assert(known == has_call(self@.calls, piece.index));
                    assert(Seq::<char>::empty() + f.arguments@ =~= f.arguments@);
                }
                if known {
                    self.calls.set(k, call);
                    proof {
                        assert(self@.calls =~= old(self)@.calls.update(k as int, added));
                    }
                } else {
                    self.calls.insert(k, call);
                    proof {
                        assert(self@.calls =~= old(self)@.calls.insert(k as int, added));
                    }
                }
                proof {
                    assert(self@.calls == put_call(old(self)@.calls, added));
                }
            },
        }
    }

    /// The reply, as far as it has come.
    pub fn finish_stream(&self) -> (r: LlmResponse)
        ensures
            r@ == assembled(self@),
    {
        if self.calls.len() > 0 {
            let mut out: Vec<ToolCallRequest> = Vec::new();
            let ghost all = self@.calls;
            for i in 0..self.calls.len()
                invariant
                    out@.len() == i,
                    all == self@.calls,
                    forall|j: int|
                        0 <= j < i ==> #[trigger] out@[j]@ == (CallView {
                            id: all[j].id,
                            name: all[j].name,
                            arguments: arguments_of(all[j].arguments),
                        }),
            {
                let call = &self.calls[i];
                out.push(
                    ToolCallRequest {
                        id: call.id.clone(),
                        name: call.name.clone(),
                        arguments: parse_arguments(call.arguments.as_str()),
                    },
                );
            }
            proof {
                assert(ResponseView::ToolCalls(call_views(out@)) == assembled(self@)) by {
                    assert(call_views(out@) =~= assembled(self@)->ToolCalls_0);
                }
            }
            LlmResponse::ToolCalls(out)
        } else {
            LlmResponse::Text(self.text.clone())
        }
    }
}

/// Tool calls are never dropped: where any call has come, whatever text has come with
/// it, the reply is the calls, one for each, in their order, with their ids, names and
/// arguments. The reply is a text only where no call has come, and then it is the text
/// that has come.
pub proof fn calls_are_never_dropped(v: StreamView)
    ensures
        v.calls.len() > 0 ==> (assembled(v) matches ResponseView::ToolCalls(calls) && calls.len()
            == v.calls.len() && forall|i: int|
            0 <= i < calls.len() ==> (#[trigger] calls[i]).id == v.calls[i].id && calls[i].name
                == v.calls[i].name && calls[i].arguments == arguments_of(v.calls[i].arguments)),
        v.calls.len() == 0 ==> assembled(v) == ResponseView::Text(v.text),
{
}

/// Whether one of the calls has that index.
pub open spec fn has_index(calls: Seq<PartialView>, index: usize) -> bool {
    exists|i: int| 0 <= i < calls.len() && (#[trigger] calls[i]).index == index
}

/// Whether one of the pieces is a piece of the function of the call with that index.
pub open spec fn is_named(pieces: Seq<PieceView>, index: usize) -> bool {
    exists|j: int|
        0 <= j < pieces.len() && (#[trigger] pieces[j]).index == index && pieces[j].function is Some
}

/// Whether a delta brings a piece of the function of the call with that index.
pub open spec fn brings_call(chunk: StreamChunk, index: usize) -> bool {
    chunk.choices@.len() > 0 && exists|j: int|
        0 <= j < chunk.choices@[0].delta.tool_calls@.len() && (
        #[trigger] chunk.choices@[0].delta.tool_calls@[j]).index == index
            && chunk.choices@[0].delta.tool_calls@[j].function is Some
}

/// A reply holds what was streamed: it has a call of an index exactly where some delta
/// brought a piece of that call, the calls stand in the order of their indices, and it
/// is a text exactly where no delta brought a piece of any call. The text is all that
/// the deltas added.
pub proof fn replies_hold_what_was_streamed(chunks: Seq<StreamChunk>)
    ensures
        in_order(received(nothing_yet(), chunks).calls),
        forall|index: usize| #[trigger]
            has_index(received(nothing_yet(), chunks).calls, index) <==> exists|k: int|
                0 <= k < chunks.len() && brings_call(#[trigger] chunks[k], index),
        assembled(received(nothing_yet(), chunks)) is Text <==> forall|k: int, index: usize|
            0 <= k < chunks.len() ==> !#[trigger] brings_call(chunks[k], index),
        assembled(received(nothing_yet(), chunks)) matches ResponseView::Text(text) ==> text
            == run_together(tokens(chunks)),
    decreases chunks.len(),
{
    let v = received(nothing_yet(), chunks);
    lemma_text_is_tokens(chunks);
    if chunks.len() > 0 {
        let front = chunks.drop_last();
        let last = chunks.last();
        let before = received(nothing_yet(), front).calls;
        replies_hold_what_was_streamed(front);
        pieces_keep_calls_in_order(before, delta_pieces(last));
        assert forall|index: usize| #[trigger] has_index(v.calls, index) <==> exists|k: int|
            0 <= k < chunks.len() && brings_call(#[trigger] chunks[k], index) by {
            lemma_indices(before, delta_pieces(last), index);
            lemma_delta_indices(last, index);
            if exists|k: int| 0 <= k < front.len() && brings_call(#[trigger] front[k], index) {
                let k = choose|k: int|
                    0 <= k < front.len() && brings_call(#[trigger] front[k], index);
                assert(chunks[k] == front[k]);
            }
            if brings_call(last, index) {
                assert(chunks[chunks.len() - 1] == last);
            }
            if exists|k: int| 0 <= k < chunks.len() && brings_call(#[trigger] chunks[k], index) {
                let k = choose|k: int|
                    0 <= k < chunks.len() && brings_call(#[trigger] chunks[k], index);
                if k < front.len() {
                    assert(chunks[k] == front[k]);
                }
            }
        }
    }
    if v.calls.len() > 0 {
        let index = v.calls[0].index;
        assert(has_index(v.calls, index));
    } else {
        assert forall|k: int, index: usize| 0 <= k < chunks.len() implies !#[trigger] brings_call(
            chunks[k],
            index,
        ) by {
            assert(!has_index(v.calls, index));
        }
    }
}

/// The pieces of a delta are those that it brings.
proof fn lemma_delta_indices(chunk: StreamChunk, index: usize)
    ensures
        is_named(delta_pieces(chunk), index) == brings_call(chunk, index),
{
    let pieces = delta_pieces(chunk);
    if is_named(pieces, index) {
        let j = choose|j: int|
            0 <= j < pieces.len() && (#[trigger] pieces[j]).index == index
                && pieces[j].function is Some;
        assert(chunk.choices@[0].delta.tool_calls@[j]@ == pieces[j]);
    }
    if brings_call(chunk, index) {
        let calls = chunk.choices@[0].delta.tool_calls@;
        let j = choose|j: int|
            0 <= j < calls.len() && (#[trigger] calls[j]).index == index
                && calls[j].function is Some;
        assert(pieces[j] == calls[j]@);
    }
}

/// Which indices the calls have after more pieces.
proof fn lemma_indices(calls: Seq<PartialView>, pieces: Seq<PieceView>, index: usize)
    requires
        in_order(calls),
    ensures
        has_index(add_pieces(calls, pieces), index) == (has_index(calls, index) || is_named(
            pieces,
            index,
        )),
    decreases pieces.len(),
{
    if pieces.len() > 0 {
        let front = pieces.drop_last();
        let before = add_pieces(calls, front);
        let last = pieces.last();
        lemma_indices(calls, front, index);
        pieces_keep_calls_in_order(calls, front);
        pieces_touch_their_call(before, last, index);
        let after = add_piece(before, last);
        if is_named(front, index) {
            let j = choose|j: int|
                0 <= j < front.len() && (#[trigger] front[j]).index == index
                    && front[j].function is Some;
            assert(pieces[j] == front[j]);
        }
        if last.index == index && last.function is Some {
            assert(pieces[pieces.len() - 1] == last);
        }
        if is_named(pieces, index) {
            let j = choose|j: int|
                0 <= j < pieces.len() && (#[trigger] pieces[j]).index == index
                    && pieces[j].function is Some;
            if j < front.len() {
                assert(front[j] == pieces[j]);
            }
        }
        if last.index == index && last.function is Some {
            assert(has_index(after, index));
        } else {
            if has_index(before, index) {
                let i = choose|i: int| 0 <= i < before.len() && (#[trigger] before[i]).index == index;
                assert(before.contains(before[i]));
                assert(after.contains(before[i]));
            }
            if has_index(after, index) {
                let i = choose|i: int| 0 <= i < after.len() && (#[trigger] after[i]).index == index;
                assert(after.contains(after[i]));
                assert(before.contains(after[i]));
            }
        }
    }
}

/// A piece changes the call of its index and no other. With a name the call starts: it
/// has that name, the arguments of the piece, and the id of the piece, or `call_` and
/// the index where the piece has none. Without a name the arguments are added to those
/// of the call, whose id and name stay; where there is no such call yet, it starts
/// without a name.
pub proof fn pieces_touch_their_call(calls: Seq<PartialView>, piece: PieceView, index: usize)
    requires
        in_order(calls),
    ensures
        index != piece.index || piece.function is None ==> forall|call: PartialView|
            call.index == index ==> (#[trigger] add_piece(calls, piece).contains(call)
                <==> calls.contains(call)),
        piece.function matches Some((Some(name), arguments)) ==> add_piece(calls, piece).contains(
            PartialView {
                index: piece.index,
                id: match piece.id {
                    Some(id) => id,
                    None => "call_"@ + dec(piece.index as nat),
                },
                name,
                arguments,
            },
        ),
        piece.function matches Some((None, more)) ==> forall|call: PartialView| #[trigger]
            calls.contains(call) && call.index == piece.index ==> add_piece(calls, piece).contains(
                PartialView { arguments: call.arguments + more, ..call },
            ),
        piece.function matches Some((None, more)) ==> has_index(calls, piece.index) || add_piece(
            calls,
            piece,
        ).contains(
            PartialView {
                index: piece.index,
                id: match piece.id {
                    Some(id) => id,
                    None => "call_"@ + dec(piece.index as nat),
                },
                name: seq![],
                arguments: more,
            },
        ),
        piece.function is Some ==> has_index(add_piece(calls, piece), piece.index),
{
    let after = add_piece(calls, piece);
    let k = place(calls, piece.index);
    lemma_place(calls, piece.index);
    match piece.function {
        None => {},
        Some((name, arguments)) => {
            let known = has_call(calls, piece.index);
            let call = match name {
                Some(name) => PartialView {
                    index: piece.index,
                    id: piece_id(piece),
                    name,
                    arguments,
                },
                None => if known {
                    PartialView { arguments: calls[k].arguments + arguments, ..calls[k] }
                } else {
                    PartialView {
                        index: piece.index,
                        id: piece_id(piece),
                        name: seq![],
                        arguments: Seq::<char>::empty() + arguments,
                    }
                },
            };
            assert(Seq::<char>::empty() + arguments =~= arguments);
            assert(after == put_call(calls, call));
            lemma_put_call(calls, call);
            assert(after[k] == call);
            if index != piece.index {
                assert forall|other: PartialView| other.index == index implies (
                #[trigger] after.contains(other) <==> calls.contains(other)) by {
                    lemma_put_others(calls, call, other);
                }
            }
            assert forall|other: PartialView| #[trigger]
                calls.contains(other) && other.index == piece.index implies known && other
                == calls[k] by {
                let i = choose|i: int| 0 <= i < calls.len() && calls[i] == other;
                if i < k {
                    assert(calls[i].index < piece.index);
                }
                if k < i {
                    assert(calls[k].index < calls[i].index);
                }
            }
            if known {
                assert(calls[k].index == piece.index);
                assert(has_index(calls, piece.index));
            }
        },
    }
}

/// Putting a call in its place leaves the calls of other indices.
proof fn lemma_put_others(calls: Seq<PartialView>, call: PartialView, other: PartialView)
    requires
        in_order(calls),
        other.index != call.index,
    ensures
        put_call(calls, call).contains(other) == calls.contains(other),
{
    let k = place(calls, call.index);
    lemma_place(calls, call.index);
    let after = put_call(calls, call);
    if has_call(calls, call.index) {
        if calls.contains(other) {
            let i = choose|i: int| 0 <= i < calls.len() && calls[i] == other;
            assert(after[i] == other);
        }
        if after.contains(other) {
            let i = choose|i: int| 0 <= i < after.len() && after[i] == other;
            assert(calls[i] == other);
        }
    } else {
        if calls.contains(other) {
            let i = choose|i: int| 0 <= i < calls.len() && calls[i] == other;
            if i < k {
                assert(after[i] == other);
            } else {
                assert(after[i + 1] == other);
            }
        }
        if after.contains(other) {
            let i = choose|i: int| 0 <= i < after.len() && after[i] == other;
            if i < k {
                assert(calls[i] == other);
            } else {
                assert(calls[i - 1] == other);
            }
        }
    }
}

/// A delta adds the text of its first choice to the text, and only that; without a
/// choice it changes nothing. The text that is passed on is the one that is added.
pub proof fn deltas_add_their_text(v: StreamView, chunk: StreamChunk)
    ensures
        chunk.choices@.len() == 0 ==> applied(v, chunk) == v && delta_text(chunk) is None,
        chunk.choices@.len() > 0 ==> (match chunk.choices@[0].delta.content {
            Some(s) => applied(v, chunk).text == v.text + s@ && delta_text(chunk) == Some(s@),
            None => applied(v, chunk).text == v.text && delta_text(chunk) is None,
        }),
        chunk.choices@.len() > 0 && chunk.choices@[0].delta.tool_calls@.len() == 0 ==> applied(
            v,
            chunk,
        ).calls == v.calls,
        applied(v, chunk).buffer == v.buffer,
{
    if chunk.choices@.len() > 0 && chunk.choices@[0].delta.tool_calls@.len() == 0 {
        assert(delta_pieces(chunk) =~= seq![]);
    }
}

/// What is sent in a data line is read from it, with or without the blank before it and
/// whatever white space ends the line; the end mark ends the stream; and comments, blank
/// lines and other fields are passed over.
pub proof fn data_lines_are_read(data: Seq<char>, tail: Seq<char>, other: Seq<char>)
    requires
        data.len() > 0,
        !is_space(data[0]),
        !is_space(data.last()),
        forall|i: int| 0 <= i < tail.len() ==> is_space(#[trigger] tail[i]),
    ensures
        data != "[DONE]"@ ==> text_event("data:"@ + data + tail) == EventView::Data(data),
        data != "[DONE]"@ ==> text_event("data: "@ + data + tail) == EventView::Data(data),
        text_event("data: [DONE]"@ + tail) == EventView::Done,
        text_event("data:[DONE]"@ + tail) == EventView::Done,
        text_event(seq![':'] + other) == EventView::Skip,
        text_event(tail) == EventView::Skip,
        begins(other, "data:"@) == false && other.len() > 0 && !is_space(other[0]) ==> text_event(
            other,
        ) == EventView::Skip,
{
    reveal_strlit("data:");
    reveal_strlit("data: ");
    reveal_strlit("[DONE]");
    reveal_strlit("data: [DONE]");
    reveal_strlit("data:[DONE]");
    lemma_data_line(seq![], data, tail);
    lemma_data_line(seq![' '], data, tail);
    assert("data:"@ + seq![] + data + tail =~= "data:"@ + data + tail);
    assert("data:"@ + seq![' '] + data + tail =~= "data: "@ + data + tail);
    lemma_data_line(seq![], "[DONE]"@, tail);
    lemma_data_line(seq![' '], "[DONE]"@, tail);
    assert("data:"@ + seq![] + "[DONE]"@ + tail =~= "data:[DONE]"@ + tail);
    assert("data:"@ + seq![' '] + "[DONE]"@ + tail =~= "data: [DONE]"@ + tail);
    white_space_around_a_text_is_trimmed(seq![], seq![], tail);
    assert(Seq::<char>::empty() + Seq::<char>::empty() + tail =~= tail);
    let comment = seq![':'] + other;
    let a = trimming_takes_white_space_only(comment);
    assert(comment[0] == ':');
    if a > 0 {
        assert(is_space(comment[0]));
    }
    if trimmed(comment).len() == 0 {
        assert(is_space(comment[0]));
    }
    assert(trimmed(comment)[0] == comment[0]);
    if other.len() > 0 && !is_space(other[0]) {
        let b = trimming_takes_white_space_only(other);
        let t = trimmed(other);
        if b > 0 || t.len() == 0 {
            assert(is_space(other[0]));
        }
        if begins(t, "data:"@) {
            assert(other.subrange(0, 5) =~= t.subrange(0, 5));
        }
    }
}

/// A data line with white space around its data.
proof fn lemma_data_line(blank: Seq<char>, data: Seq<char>, tail: Seq<char>)
    requires
        data.len() > 0,
        !is_space(data[0]),
        !is_space(data.last()),
        forall|i: int| 0 <= i < blank.len() ==> is_space(#[trigger] blank[i]),
        forall|i: int| 0 <= i < tail.len() ==> is_space(#[trigger] tail[i]),
    ensures
        text_event("data:"@ + blank + data + tail) == (if data == "[DONE]"@ {
            EventView::Done
        } else {
            EventView::Data(data)
        }),
{
    reveal_strlit("data:");
    let line = "data:"@ + blank + data;
    white_space_around_a_text_is_trimmed(seq![], line, tail);
    assert(line.last() == data.last());
    assert(Seq::<char>::empty() + line + tail =~= "data:"@ + blank + data + tail);
    assert(line.subrange(0, 5) =~= "data:"@);
    assert(begins(line, "data:"@));
    white_space_around_a_text_is_trimmed(blank, data, seq![]);
    assert(line.skip(5) =~= blank + data + Seq::<char>::empty());
    assert(line[0] == 'd');
}

/// The complete lines and what is left over hold all the bytes, in order; each line
/// ends with its only line feed, and none is left over.
pub proof fn lines_hold_all_bytes(b: Seq<u8>)
    ensures
        bytes_of(complete_lines(b)) + remainder(b) == b,
        forall|i: int|
            0 <= i < complete_lines(b).len() ==> {
                let line = #[trigger] complete_lines(b)[i];
                line.len() > 0 && line.last() == 10 && !line.drop_last().contains(10)
            },
        !remainder(b).contains(10),
    decreases b.len(),
{
    lemma_line_len(b);
    let n = line_len(b);
    if n < b.len() {
        let line = b.take(n + 1);
        let rest = b.skip(n + 1);
        lines_hold_all_bytes(rest);
        lemma_bytes_first(line, complete_lines(rest));
        assert(complete_lines(b) == seq![line] + complete_lines(rest));
        assert(bytes_of(complete_lines(b)) + remainder(b) =~= line + (bytes_of(complete_lines(rest))
            + remainder(rest)));
        assert(line + rest =~= b);
        assert forall|i: int| 0 <= i < complete_lines(b).len() implies ({
            let l = #[trigger] complete_lines(b)[i];
            l.len() > 0 && l.last() == 10 && !l.drop_last().contains(10)
        }) by {
            if i > 0 {
                assert(complete_lines(b)[i] == complete_lines(rest)[i - 1]);
            } else {
                assert(line.last() == b[n]);
                assert(line.drop_last() =~= b.take(n));
            }
        }
    } else {
        assert(complete_lines(b) =~= seq![]);
        assert(bytes_of(complete_lines(b)) + remainder(b) =~= b);
    }
}

/// The bytes of chunks begin with those of the first.
proof fn lemma_bytes_first(first: Seq<u8>, rest: Seq<Seq<u8>>)
    ensures
        bytes_of(seq![first] + rest) == first + bytes_of(rest),
    decreases rest.len(),
{
    let all = seq![first] + rest;
    if rest.len() == 0 {
        assert(all.drop_last() =~= seq![]);
        assert(all.last() == first);
        assert(bytes_of(seq![]) =~= Seq::<u8>::empty());
        assert(bytes_of(all) =~= first + bytes_of(rest));
    } else {
        assert(all.drop_last() =~= seq![first] + rest.drop_last());
        lemma_bytes_first(first, rest.drop_last());
        assert(bytes_of(all) =~= first + bytes_of(rest));
    }
}

/// Every document before the end of the stream is taken, in order, and nothing behind
/// it.
pub proof fn documents_are_taken_up_to_the_end(
    before: Seq<EventView>,
    document: Seq<char>,
    after: Seq<EventView>,
)
    requires
        forall|i: int| 0 <= i < before.len() ==> !((#[trigger] before[i]) is Done),
    ensures
        documents(before.push(EventView::Data(document)) + after) == documents(before).push(document)
            + documents(after),
        documents(before.push(EventView::Skip) + after) == documents(before) + documents(after),
        documents(before.push(EventView::Done) + after) == documents(before),
        has_done(before.push(EventView::Done) + after),
        has_done(before) == false,
{
    lemma_not_done(before);
    let data = seq![EventView::Data(document)];
    let skip = seq![EventView::Skip];
    let done = seq![EventView::Done];
    assert(before.push(EventView::Data(document)) + after =~= before + (data + after));
    assert(before.push(EventView::Skip) + after =~= before + (skip + after));
    assert(before.push(EventView::Done) + after =~= before + (done + after));
    assert((data + after).drop_first() =~= after);
    assert((skip + after).drop_first() =~= after);
    lemma_documents(before, data + after);
    lemma_documents(before, skip + after);
    lemma_documents(before, done + after);
    assert(documents(before) + (seq![document] + documents(after)) =~= documents(before).push(
        document,
    ) + documents(after));
    assert(documents(done + after) =~= seq![]);
    assert(documents(before) + Seq::<Seq<char>>::empty() =~= documents(before));
}

/// Without an end mark no end is read.
proof fn lemma_not_done(events: Seq<EventView>)
    requires
        forall|i: int| 0 <= i < events.len() ==> !((#[trigger] events[i]) is Done),
    ensures
        has_done(events) == false,
    decreases events.len(),
{
    if events.len() > 0 {
        let rest = events.drop_first();
        assert forall|i: int| 0 <= i < rest.len() implies !((#[trigger] rest[i]) is Done) by {
            assert(rest[i] == events[i + 1]);
        }
        lemma_not_done(rest);
        assert(!(events[0] is Done));
    }
}

} // verus!
