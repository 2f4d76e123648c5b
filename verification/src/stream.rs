//! The streaming response decoder: from the lines of a response body to
//! chunks.
//!
//! The body is a sequence of records of two lines each. The first line of a
//! record is the payload: a JSON chunk, with any prefix before its first
//! `{`, or a line that holds the sentinel `[DONE]`. The second line is a
//! separator and is passed over unread.

use vstd::prelude::*;
use crate::chunk::{chunk_of, ChatCompletionChunk, ShapeError};
use crate::json::{json_reading, parse_json, JsonValue, JsonView};
use crate::text::{
    chars_of, contains, contains_chars, index_of, lemma_contains_joined, lemma_index_of_unique,
    position,
};

verus! {

/// The contents of the choices of a chunk, in order.
pub type ChunkView = Seq<Option<Seq<char>>>;

/// A line as the reader gave it: its text, or the message of the error that
/// the reader met in its place.
pub type LineView = Result<Seq<char>, Seq<char>>;

/// Why a line gave no chunk.
#[derive(Clone, Debug, PartialEq, Eq)]
pub enum DecodeError {
    /// The payload is no JSON text. Holds the message of the JSON reader.
    Syntax(String),
    /// The payload is a JSON document, but no chunk.
    Shape(ShapeError),
    /// The line could not be read. Holds the message of the line reader.
    Read(String),
}

/// A decode error with its texts as character sequences.
pub enum DecodeErrorView {
    Syntax(Seq<char>),
    Shape(ShapeError),
    Read(Seq<char>),
}

impl View for DecodeError {
    type V = DecodeErrorView;

    open spec fn view(&self) -> DecodeErrorView {
        match self {
            DecodeError::Syntax(message) => DecodeErrorView::Syntax(message@),
            DecodeError::Shape(error) => DecodeErrorView::Shape(*error),
            DecodeError::Read(message) => DecodeErrorView::Read(message@),
        }
    }
}

impl DecodeErrorView {
    /// The error as a message: `Malformed JSON: ` and the reason for a
    /// payload that is no chunk, the reader's own message for a line that
    /// could not be read.
    pub open spec fn message(self) -> Seq<char> {
        match self {
            DecodeErrorView::Syntax(message) => "Malformed JSON: "@ + message,
            DecodeErrorView::Shape(error) => "Malformed JSON: "@ + error.description(),
            DecodeErrorView::Read(message) => message,
        }
    }
}

impl DecodeError {
    /// The error as a message.
    pub fn message(&self) -> (text: String)
        ensures
            text@ == self@.message(),
    {
        match self {
            DecodeError::Syntax(message) => String::from_str("Malformed JSON: ").concat(
                message.as_str(),
            ),
            DecodeError::Shape(error) => String::from_str("Malformed JSON: ").concat(
                error.describe(),
            ),
            DecodeError::Read(message) => message.clone(),
        }
    }
}

/// The sentinel that ends a stream.
pub open spec fn sentinel() -> Seq<char> {
    "[DONE]"@
}

/// The part of a line that is read as JSON: the line from its first `{` on,
/// or all of it where it holds no `{`.
pub open spec fn payload(line: Seq<char>) -> Seq<char> {
    let at: int = index_of(line, '{');
    if at < line.len() {
        line.skip(at)
    } else {
        line
    }
}

/// The prefix of a line is dropped: where no `{` stands in `prefix` and
/// `rest` starts with one, the payload of the two joined is `rest`.
pub proof fn lemma_payload_drops_prefix(prefix: Seq<char>, rest: Seq<char>)
    requires
        forall|k: int| 0 <= k < prefix.len() ==> prefix[k] != '{',
        rest.len() > 0,
        rest[0] == '{',
    ensures
        payload(prefix + rest) == rest,
{
    let line = prefix + rest;
    assert(line[prefix.len() as int] == rest[0]);
    lemma_index_of_unique(line, '{', prefix.len() as int);
    assert(line.skip(prefix.len() as int) =~= rest);
}

/// A line without any `{` is its own payload.
pub proof fn lemma_payload_without_brace(line: Seq<char>)
    requires
        forall|k: int| 0 <= k < line.len() ==> line[k] != '{',
    ensures
        payload(line) == line,
{
    lemma_index_of_unique(line, '{', line.len() as int);
}

/// What the outcome of reading a payload as JSON gives: the chunk of the
/// document, or the error.
pub open spec fn chunk_of_reading(reading: Result<JsonView, Seq<char>>) -> Result<
    ChunkView,
    DecodeErrorView,
> {
    match reading {
        Err(message) => Err(DecodeErrorView::Syntax(message)),
        Ok(document) => match chunk_of(document) {
            Ok(contents) => Ok(contents),
            Err(error) => Err(DecodeErrorView::Shape(error)),
        },
    }
}

/// What a payload line gives: `Ok(None)` where it holds the sentinel
/// anywhere, else the chunk read from its payload, or the error.
pub open spec fn decoded_line(line: Seq<char>) -> Result<Option<ChunkView>, DecodeErrorView> {
    if contains(line, sentinel()) {
        Ok(None)
    } else {
        match chunk_of_reading(json_reading(payload(line))) {
            Ok(contents) => Ok(Some(contents)),
            Err(error) => Err(error),
        }
    }
}

/// A line with the sentinel ends the stream whatever stands before and
/// after the sentinel.
pub proof fn lemma_sentinel_line(before: Seq<char>, after: Seq<char>)
    ensures
        decoded_line(before + sentinel() + after) == Ok::<Option<ChunkView>, DecodeErrorView>(None),
{
    lemma_contains_joined(before, sentinel(), after);
}

/// The view of what `next_chunk` returns.
pub open spec fn decoded_view(decoded: Result<Option<ChatCompletionChunk>, DecodeError>) -> Result<
    Option<ChunkView>,
    DecodeErrorView,
> {
    match decoded {
        Ok(None) => Ok(None),
        Ok(Some(chunk)) => Ok(Some(chunk@)),
        Err(error) => Err(error@),
    }
}

/// The view of the outcome of reading a JSON text.
pub open spec fn reading_view(reading: Result<JsonValue, String>) -> Result<JsonView, Seq<char>> {
    match reading {
        Ok(document) => Ok(document@),
        Err(message) => Err(message@),
    }
}

/// The chunk that the outcome of reading a payload as JSON gives: the chunk
/// of the document, a `Shape` error where the document is no chunk, and a
/// `Syntax` error with the reader's message where the payload was no JSON.
pub fn chunk_from_reading(reading: Result<JsonValue, String>) -> (chunk: Result<
    ChatCompletionChunk,
    DecodeError,
>)
    ensures
        match chunk {
            Ok(c) => chunk_of_reading(reading_view(reading)) == Ok::<ChunkView, DecodeErrorView>(c@),
            Err(error) => chunk_of_reading(reading_view(reading)) == Err::<
                ChunkView,
                DecodeErrorView,
            >(error@),
        },
{
    match reading {
        Err(message) => Err(DecodeError::Syntax(message)),
        Ok(document) => match ChatCompletionChunk::from_json(&document) {
            Ok(chunk) => Ok(chunk),
            Err(error) => Err(DecodeError::Shape(error)),
        },
    }
}

/// Decodes one payload line.
///
/// A line that holds `[DONE]` anywhere ends the stream: `Ok(None)`. Any
/// other line is cut to start at its first `{`, if it has one, and read as
/// the JSON of a chunk: `Ok(Some(chunk))`, or the error.
pub fn next_chunk(s: String) -> (decoded: Result<Option<ChatCompletionChunk>, DecodeError>)
    ensures
        decoded_view(decoded) == decoded_line(s@),
{
    let line = s.as_str();
    let chars = chars_of(line);
    let done = chars_of("[DONE]");
    if contains_chars(&chars, &done) {
        return Ok(None);
    }
    let at = position(&chars, '{');
    let text = if at < chars.len() {
        line.substring_char(at, chars.len())
    } else {
        line
    };
    match chunk_from_reading(parse_json(text)) {
        Ok(chunk) => Ok(Some(chunk)),
        Err(error) => Err(error),
    }
}

/// What one line of the body came to.
#[derive(Clone, Debug, PartialEq, Eq)]
pub enum Step {
    /// The line was a separator and was passed over.
    Skipped,
    /// The line gave a chunk.
    Chunk(ChatCompletionChunk),
    /// The line gave no chunk; the stream goes on.
    Failed(DecodeError),
    /// The stream has ended; nothing more comes of any line.
    End,
}

/// A step with its texts as character sequences.
pub enum StepView {
    Skipped,
    Chunk(ChunkView),
    Failed(DecodeErrorView),
    End,
}

impl View for Step {
    type V = StepView;

    open spec fn view(&self) -> StepView {
        match self {
            Step::Skipped => StepView::Skipped,
            Step::Chunk(chunk) => StepView::Chunk(chunk@),
            Step::Failed(error) => StepView::Failed(error@),
            Step::End => StepView::End,
        }
    }
}

/// The view of a line as the reader gave it.
pub open spec fn line_view(line: Result<String, String>) -> LineView {
    match line {
        Ok(text) => Ok(text@),
        Err(message) => Err(message@),
    }
}

/// The views of lines, in order.
pub open spec fn lines_view(lines: Seq<Result<String, String>>) -> Seq<LineView> {
    lines.map_values(|line: Result<String, String>| line_view(line))
}

/// The decoder of one response body, between two of its lines.
///
/// A stream starts at `AwaitingPayload` and is handed the lines of the body
/// one by one, in order. It decodes every other line, starting with the
/// first, and passes over the lines between them. A payload line with the
/// sentinel takes it to `Done`, where it stays.
#[derive(Clone, Copy, Debug, PartialEq, Eq, Structural)]
pub enum ChatCompletionStream {
    /// The next line is a payload.
    AwaitingPayload,
    /// The next line is a separator.
    AwaitingSeparator,
    /// The sentinel was seen.
    Done,
}

impl ChatCompletionStream {
    /// The state that a line takes the stream to.
    pub open spec fn after(self, line: LineView) -> ChatCompletionStream {
        match self {
            ChatCompletionStream::Done => ChatCompletionStream::Done,
            ChatCompletionStream::AwaitingSeparator => ChatCompletionStream::AwaitingPayload,
            ChatCompletionStream::AwaitingPayload => match line {
                Ok(text) if decoded_line(text) == Ok::<Option<ChunkView>, DecodeErrorView>(None) => {
                    ChatCompletionStream::Done
                },
                _ => ChatCompletionStream::AwaitingSeparator,
            },
        }
    }

    /// What comes of a line in this state.
    pub open spec fn outcome(self, line: LineView) -> StepView {
        match self {
            ChatCompletionStream::Done => StepView::End,
            ChatCompletionStream::AwaitingSeparator => StepView::Skipped,
            ChatCompletionStream::AwaitingPayload => match line {
                Err(message) => StepView::Failed(DecodeErrorView::Read(message)),
                Ok(text) => match decoded_line(text) {
                    Ok(None) => StepView::End,
                    Ok(Some(contents)) => StepView::Chunk(contents),
                    Err(error) => StepView::Failed(error),
                },
            },
        }
    }

    /// A stream at the start of a body.
    pub fn new() -> (stream: ChatCompletionStream)
        ensures
            stream == ChatCompletionStream::AwaitingPayload,
    {
        ChatCompletionStream::AwaitingPayload
    }

    /// Whether the sentinel was seen.
    pub fn is_done(&self) -> (done: bool)
        ensures
            done == (*self == ChatCompletionStream::Done),
    {
        match self {
            ChatCompletionStream::Done => true,
            _ => false,
        }
    }

    /// Takes the next line of the body and says what came of it.
    ///
    /// `line` is the line as the reader gave it: its text, or the message of
    /// the error met in its place. A separator is passed over whatever it
    /// holds. A payload gives a chunk, an error that does not end the
    /// stream, or the end of the stream. Once the stream is done, every
    /// line gives `End`.
    pub fn next(&mut self, line: Result<String, String>) -> (step: Step)
        ensures
            *final(self) == old(self).after(line_view(line)),
            step@ == old(self).outcome(line_view(line)),
    {
        match *self {
            ChatCompletionStream::Done => Step::End,
            ChatCompletionStream::AwaitingSeparator => {
                *self = ChatCompletionStream::AwaitingPayload;
                Step::Skipped
            },
            ChatCompletionStream::AwaitingPayload => {
                *self = ChatCompletionStream::AwaitingSeparator;
                match line {
                    Err(message) => Step::Failed(DecodeError::Read(message)),
                    Ok(text) => match next_chunk(text) {
                        Ok(None) => {
                            *self = ChatCompletionStream::Done;
                            Step::End
                        },
                        Ok(Some(chunk)) => Step::Chunk(chunk),
                        Err(error) => Step::Failed(error),
                    },
                }
            },
        }
    }
}

/// The state of a stream that was handed `lines` from its start.
pub open spec fn state_after(lines: Seq<LineView>) -> ChatCompletionStream
    decreases lines.len(),
{
    if lines.len() == 0 {
        ChatCompletionStream::AwaitingPayload
    } else {
        state_after(lines.drop_last()).after(lines.last())
    }
}

/// What came of each of `lines`, handed to a stream from its start.
pub open spec fn steps_of(lines: Seq<LineView>) -> Seq<StepView>
    decreases lines.len(),
{
    if lines.len() == 0 {
        Seq::empty()
    } else {
        steps_of(lines.drop_last()).push(state_after(lines.drop_last()).outcome(lines.last()))
    }
}

/// Decodes a whole body: what came of each of its lines, in order.
pub fn decode_lines(lines: Vec<Result<String, String>>) -> (steps: Vec<Step>)
    ensures
        steps@.map_values(|step: Step| step@) == steps_of(lines_view(lines@)),
{
    let ghost all = lines_view(lines@);
    let mut stream = ChatCompletionStream::new();
    let mut steps: Vec<Step> = Vec::new();
    for line in it: lines
        invariant
            all == lines_view(it.seq()),
            stream == state_after(all.take(it.index() as int)),
            steps@.map_values(|step: Step| step@) == steps_of(all.take(it.index() as int)),
    {
        let ghost before = steps@.map_values(|step: Step| step@);
        let ghost seen = it.index() as int;
        assert(all.take(seen + 1).drop_last() =~= all.take(seen));
        assert(all.take(seen + 1).last() == line_view(line));
        let step = stream.next(line);
        steps.push(step);
        assert(steps@.map_values(|step: Step| step@) =~= before.push(step@));
    }
    assert(all.take(all.len() as int) =~= all);
    steps
}

/// Every line gives one step: the outcome, for that line, of the state that
/// the lines before it led to.
pub proof fn lemma_step_at(lines: Seq<LineView>, k: int)
    requires
        0 <= k < lines.len(),
    ensures
        steps_of(lines).len() == lines.len(),
        steps_of(lines)[k] == state_after(lines.take(k)).outcome(lines[k]),
    decreases lines.len(),
{
    lemma_steps_len(lines);
    let front = lines.drop_last();
    if k == lines.len() - 1 {
        assert(lines.take(k) =~= front);
    } else {
        lemma_step_at(front, k);
        assert(front.take(k) =~= lines.take(k));
    }
}

/// Every line gives one step.
pub proof fn lemma_steps_len(lines: Seq<LineView>)
    ensures
        steps_of(lines).len() == lines.len(),
    decreases lines.len(),
{
    if lines.len() > 0 {
        lemma_steps_len(lines.drop_last());
    }
}

/// The decoder reads every other line: a stream that is not done awaits a
/// payload after an even number of lines and a separator after an odd one.
pub proof fn lemma_stride(lines: Seq<LineView>)
    ensures
        lines.len() % 2 == 0 ==> state_after(lines) != ChatCompletionStream::AwaitingSeparator,
        lines.len() % 2 == 1 ==> state_after(lines) != ChatCompletionStream::AwaitingPayload,
    decreases lines.len(),
{
    if lines.len() > 0 {
        lemma_stride(lines.drop_last());
    }
}

/// Nothing is made of a separator: the line at an odd place is passed over,
/// or follows the end of the stream.
pub proof fn lemma_separator_gives_nothing(lines: Seq<LineView>, k: int)
    requires
        0 <= k < lines.len(),
        k % 2 == 1,
    ensures
        steps_of(lines)[k] is Skipped || steps_of(lines)[k] is End,
{
    lemma_step_at(lines, k);
    lemma_stride(lines.take(k));
}

/// What a body is decoded to depends on its payload lines only: two bodies
/// of one length that agree at every even place give the same steps and
/// leave the stream in the same state.
pub proof fn lemma_separators_unread(first: Seq<LineView>, second: Seq<LineView>)
    requires
        first.len() == second.len(),
        forall|k: int| 0 <= k < first.len() && k % 2 == 0 ==> first[k] == second[k],
    ensures
        state_after(first) == state_after(second),
        steps_of(first) == steps_of(second),
    decreases first.len(),
{
    if first.len() > 0 {
        lemma_separators_unread(first.drop_last(), second.drop_last());
        lemma_stride(first.drop_last());
        if (first.len() - 1) % 2 == 0 {
            assert(first.last() == second.last());
        }
    }
}

/// Once done, a stream stays done, and every further line gives `End`.
pub proof fn lemma_done_is_final(lines: Seq<LineView>, k: int, m: int)
    requires
        0 <= k <= m <= lines.len(),
        state_after(lines.take(k)) == ChatCompletionStream::Done,
    ensures
        state_after(lines.take(m)) == ChatCompletionStream::Done,
        m < lines.len() ==> steps_of(lines)[m] is End,
    decreases m - k,
{
    if k < m {
        lemma_done_is_final(lines, k, m - 1);
        assert(lines.take(m).drop_last() =~= lines.take(m - 1));
    }
    if m < lines.len() {
        lemma_step_at(lines, m);
    }
}

/// A payload line that holds the sentinel anywhere ends the stream: that
/// line and every line after it give `End`, whatever they hold.
pub proof fn lemma_sentinel_ends(lines: Seq<LineView>, k: int, m: int)
    requires
        0 <= k <= m < lines.len(),
        k % 2 == 0,
        lines[k] matches Ok(text) && contains(text, sentinel()),
    ensures
        steps_of(lines)[m] is End,
{
    lemma_stride(lines.take(k));
    assert(lines.take(k + 1).drop_last() =~= lines.take(k));
    assert(state_after(lines.take(k + 1)) == ChatCompletionStream::Done);
    if m == k {
        lemma_step_at(lines, k);
    } else {
        lemma_done_is_final(lines, k + 1, m);
    }
}

/// A payload line that gives no chunk does not end the stream: it gives one
/// `Failed` step with its error, and the payload line of the next record is
/// decoded as it would be at the start of a body.
pub proof fn lemma_failure_goes_on(lines: Seq<LineView>, k: int)
    requires
        0 <= k < lines.len(),
        state_after(lines.take(k)) == ChatCompletionStream::AwaitingPayload,
        lines[k] matches Ok(text) ==> decoded_line(text) is Err,
    ensures
        steps_of(lines)[k] is Failed,
        lines[k] matches Ok(text) ==> steps_of(lines)[k] == StepView::Failed(
            decoded_line(text)->Err_0,
        ),
        lines[k] matches Err(message) ==> steps_of(lines)[k] == StepView::Failed(
            DecodeErrorView::Read(message),
        ),
        k + 2 < lines.len() ==> steps_of(lines)[k + 2]
            == ChatCompletionStream::AwaitingPayload.outcome(lines[k + 2]),
{
    lemma_step_at(lines, k);
    if k + 2 < lines.len() {
        lemma_step_at(lines, k + 2);
        assert(lines.take(k + 1).drop_last() =~= lines.take(k));
        assert(lines.take(k + 1).last() == lines[k]);
        assert(state_after(lines.take(k + 1)) == ChatCompletionStream::AwaitingSeparator);
        assert(lines.take(k + 2).drop_last() =~= lines.take(k + 1));
    }
}

} // verus!
