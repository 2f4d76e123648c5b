//! The completion orchestrator: from the lines of a response body to the
//! text of the whole response.
//!
//! The orchestrator is handed the lines one by one. For each it says what
//! its caller is to do: write a text increment out at once, report a line
//! that was lost, read on, or stop. Meanwhile it gathers the increments into
//! the response.

use vstd::prelude::*;
use crate::chunk::chunk_text;
use crate::stream::{
    lemma_sentinel_ends, lemma_step_at, line_view, lines_view, sentinel, state_after, steps_of,
    ChatCompletionStream, DecodeError, DecodeErrorView, LineView, Step, StepView,
};
use crate::text::contains;

verus! {

/// What the caller is to do after a line.
#[derive(Clone, Debug, PartialEq, Eq)]
pub enum Action {
    /// Read on.
    Continue,
    /// Write this text increment out, then read on.
    Write(String),
    /// A line gave no chunk: report the error, then read on.
    Report(DecodeError),
    /// Stop reading: the response is complete.
    Finish,
}

/// An action with its texts as character sequences.
pub enum ActionView {
    Continue,
    Write(Seq<char>),
    Report(DecodeErrorView),
    Finish,
}

impl View for Action {
    type V = ActionView;

    open spec fn view(&self) -> ActionView {
        match self {
            Action::Continue => ActionView::Continue,
            Action::Write(text) => ActionView::Write(text@),
            Action::Report(error) => ActionView::Report(error@),
            Action::Finish => ActionView::Finish,
        }
    }
}

/// The text that a step adds to the response: the visible text of a chunk,
/// and nothing for any other step.
pub open spec fn text_of(step: StepView) -> Seq<char> {
    match step {
        StepView::Chunk(contents) => chunk_text(contents),
        _ => Seq::empty(),
    }
}

/// What the caller is to do after a step.
pub open spec fn action_of(step: StepView) -> ActionView {
    match step {
        StepView::Skipped => ActionView::Continue,
        StepView::Chunk(contents) => ActionView::Write(chunk_text(contents)),
        StepView::Failed(error) => ActionView::Report(error),
        StepView::End => ActionView::Finish,
    }
}

/// The response that steps add up to: the visible texts of their chunks,
/// joined in order.
pub open spec fn response_of(steps: Seq<StepView>) -> Seq<char>
    decreases steps.len(),
{
    if steps.len() == 0 {
        Seq::empty()
    } else {
        response_of(steps.drop_last()) + text_of(steps.last())
    }
}

/// A completion in progress: the decoder of the body and the response
/// gathered so far.
#[derive(Clone, Debug, PartialEq, Eq)]
pub struct Completion {
    stream: ChatCompletionStream,
    response: String,
}

/// A completion in progress with its response as a character sequence.
pub struct CompletionView {
    pub stream: ChatCompletionStream,
    pub response: Seq<char>,
}

impl View for Completion {
    type V = CompletionView;

    closed spec fn view(&self) -> CompletionView {
        CompletionView { stream: self.stream, response: self.response@ }
    }
}

impl Completion {
    /// A completion at the start of a body, with an empty response.
    pub fn new() -> (completion: Completion)
        ensures
            completion@.stream == ChatCompletionStream::AwaitingPayload,
            completion@.response == Seq::<char>::empty(),
    {
        Completion { stream: ChatCompletionStream::new(), response: String::new() }
    }

    /// Takes the next line of the body, adds to the response what it gives,
    /// and says what the caller is to do.
    ///
    /// The text of a chunk is added to the response and handed back to be
    /// written out. A line that gives no chunk is handed back as an error to
    /// report and changes nothing. A separator is passed over. At the
    /// sentinel, and ever after, the answer is `Finish`.
    pub fn accept(&mut self, line: Result<String, String>) -> (action: Action)
        ensures
            final(self)@.stream == old(self)@.stream.after(line_view(line)),
            final(self)@.response == old(self)@.response + text_of(
                old(self)@.stream.outcome(line_view(line)),
            ),
            action@ == action_of(old(self)@.stream.outcome(line_view(line))),
    {
        match self.stream.next(line) {
            Step::Skipped => Action::Continue,
            Step::Chunk(chunk) => {
                let text = chunk.text();
                self.response.append(text.as_str());
                Action::Write(text)
            },
            Step::Failed(error) => Action::Report(error),
            Step::End => Action::Finish,
        }
    }

    /// Whether the sentinel was seen.
    pub fn is_done(&self) -> (done: bool)
        ensures
            done == (self@.stream == ChatCompletionStream::Done),
    {
        self.stream.is_done()
    }

    /// The response gathered so far.
    pub fn response(&self) -> (response: &String)
        ensures
            response@ == self@.response,
    {
        &self.response
    }

    /// Ends the completion and hands out the response.
    pub fn into_response(self) -> (response: String)
        ensures
            response@ == self@.response,
    {
        self.response
    }
}

/// The marker that is written out behind the last increment of a response.
pub fn end_marker() -> (marker: &'static str)
    ensures
        marker@ == "\n----------END_OF_RESPONSE----------\n\n\n"@,
{
    "\n----------END_OF_RESPONSE----------\n\n\n"
}

/// The text of the whole response of a body, given as its lines in order.
///
/// The payload lines are decoded up to the sentinel, and the visible texts
/// of the chunks are joined in order. A line that gives no chunk adds
/// nothing.
pub fn completion_text(lines: Vec<Result<String, String>>) -> (response: String)
    ensures
        response@ == response_of(steps_of(lines_view(lines@))),
{
    let ghost all = lines_view(lines@);
    let mut completion = Completion::new();
    for line in it: lines
        invariant
            all == lines_view(it.seq()),
            completion@.stream == state_after(all.take(it.index() as int)),
            completion@.response == response_of(steps_of(all.take(it.index() as int))),
    {
        let ghost seen = it.index() as int;
        assert(all.take(seen + 1).drop_last() =~= all.take(seen));
        let ghost steps = steps_of(all.take(seen));
        let ghost step = completion@.stream.outcome(line_view(line));
        assert(steps.push(step).drop_last() =~= steps);
        let _ = completion.accept(line);
    }
    assert(all.take(all.len() as int) =~= all);
    completion.into_response()
}

/// Nothing is added to a response behind the sentinel: where the payload
/// line at place `k` holds it, the response of the lines up to any place
/// behind `k` is that of the lines before `k`.
pub proof fn lemma_response_ends_at_sentinel(lines: Seq<LineView>, k: int, m: int)
    requires
        0 <= k < m <= lines.len(),
        k % 2 == 0,
        lines[k] matches Ok(text) && contains(text, sentinel()),
    ensures
        response_of(steps_of(lines.take(m))) == response_of(steps_of(lines.take(k))),
    decreases m - k,
{
    let upto = lines.take(m);
    let before = lines.take(m - 1);
    assert(upto.drop_last() =~= before);
    assert(upto[k] == lines[k]);
    lemma_sentinel_ends(upto, k, m - 1);
    lemma_step_at(upto, m - 1);
    assert(upto.take(m - 1) =~= before);
    let steps = steps_of(before);
    assert(steps.push(StepView::End).drop_last() =~= steps);
    if k < m - 1 {
        lemma_response_ends_at_sentinel(lines, k, m - 1);
    }
}

} // verus!
