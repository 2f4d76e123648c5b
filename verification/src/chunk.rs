//! Completion chunks: one decoded increment of a streamed response.
//!
//! On the wire a chunk is a JSON object
//! `{"choices": [{"delta": {"content": "..."}}, ...]}`. The member `delta`
//! may be named `message` instead, and `content` may be `null` or left out.
//! Members with other names are passed over.

use vstd::prelude::*;
use crate::json::{JsonValue, JsonView};

verus! {

/// The text increment of one choice, if it has one.
#[derive(Clone, Debug, PartialEq, Eq)]
pub struct Delta {
    pub content: Option<String>,
}

/// One choice of a chunk.
#[derive(Clone, Debug, PartialEq, Eq)]
pub struct Choice {
    pub delta: Delta,
}

/// One decoded increment of a streamed completion.
#[derive(Clone, Debug, PartialEq, Eq)]
pub struct ChatCompletionChunk {
    pub choices: Vec<Choice>,
}

impl View for Delta {
    type V = Option<Seq<char>>;

    open spec fn view(&self) -> Option<Seq<char>> {
        match self.content {
            Some(text) => Some(text@),
            None => None,
        }
    }
}

impl View for Choice {
    type V = Option<Seq<char>>;

    open spec fn view(&self) -> Option<Seq<char>> {
        self.delta@
    }
}

impl View for ChatCompletionChunk {
    type V = Seq<Option<Seq<char>>>;

    /// The content of each choice, in order.
    open spec fn view(&self) -> Seq<Option<Seq<char>>> {
        self.choices@.map_values(|choice: Choice| choice@)
    }
}

/// The visible text of a chunk: the contents of its choices joined in
/// order, a choice without content adding nothing.
pub open spec fn chunk_text(contents: Seq<Option<Seq<char>>>) -> Seq<char>
    decreases contents.len(),
{
    if contents.len() == 0 {
        Seq::empty()
    } else {
        chunk_text(contents.drop_last()) + match contents.last() {
            Some(text) => text,
            None => Seq::empty(),
        }
    }
}

impl ChatCompletionChunk {
    /// The visible text of the chunk.
    pub fn text(&self) -> (text: String)
        ensures
            text@ == chunk_text(self@),
    {
        let mut text = String::new();
        let mut i: usize = 0;
        while i < self.choices.len()
            invariant
                i <= self.choices.len(),
                text@ == chunk_text(self@.take(i as int)),
            decreases self.choices.len() - i,
        {
            assert(self@.take(i + 1).drop_last() =~= self@.take(i as int));
            if let Some(content) = &self.choices[i].delta.content {
                text.append(content.as_str());
            }
            i += 1;
        }
        assert(self@.take(i as int) =~= self@);
        text
    }
}

/// Why a JSON document is no chunk.
#[derive(Clone, Copy, Debug, PartialEq, Eq, Structural)]
pub enum ShapeError {
    /// The chunk is no object.
    ChunkNotObject,
    /// The chunk has no member `choices`.
    MissingChoices,
    /// The member `choices` is no array.
    ChoicesNotArray,
    /// A choice is no object.
    ChoiceNotObject,
    /// A choice has neither `delta` nor `message`.
    MissingDelta,
    /// A choice has both `delta` and `message`.
    DuplicateDelta,
    /// The delta of a choice is no object.
    DeltaNotObject,
    /// The content of a delta is neither text nor `null`.
    ContentNotText,
}

impl ShapeError {
    /// The error in words.
    pub open spec fn description(self) -> Seq<char> {
        match self {
            ShapeError::ChunkNotObject => "a chunk must be an object"@,
            ShapeError::MissingChoices => "missing field `choices`"@,
            ShapeError::ChoicesNotArray => "`choices` must be an array"@,
            ShapeError::ChoiceNotObject => "a choice must be an object"@,
            ShapeError::MissingDelta => "missing field `delta`"@,
            ShapeError::DuplicateDelta => "duplicate field `delta`"@,
            ShapeError::DeltaNotObject => "`delta` must be an object"@,
            ShapeError::ContentNotText => "`content` must be a string or null"@,
        }
    }

    /// The error in words.
    pub fn describe(&self) -> (words: &'static str)
        ensures
            words@ == self.description(),
    {
        match self {
            ShapeError::ChunkNotObject => "a chunk must be an object",
            ShapeError::MissingChoices => "missing field `choices`",
            ShapeError::ChoicesNotArray => "`choices` must be an array",
            ShapeError::ChoiceNotObject => "a choice must be an object",
            ShapeError::MissingDelta => "missing field `delta`",
            ShapeError::DuplicateDelta => "duplicate field `delta`",
            ShapeError::DeltaNotObject => "`delta` must be an object",
            ShapeError::ContentNotText => "`content` must be a string or null",
        }
    }
}

/// The content that a JSON document gives as a delta.
///
/// A delta is an object. Its member `content` is a text, which is the
/// content, or `null` or missing, and then the delta has no content.
pub open spec fn delta_of(document: JsonView) -> Result<Option<Seq<char>>, ShapeError> {
    if document is Object {
        match document.get("content"@) {
            None => Ok(None),
            Some(JsonView::Null) => Ok(None),
            Some(JsonView::Text(text)) => Ok(Some(text)),
            Some(_) => Err(ShapeError::ContentNotText),
        }
    } else {
        Err(ShapeError::DeltaNotObject)
    }
}

/// The content that a JSON document gives as a choice.
///
/// A choice is an object with a delta under exactly one of the names `delta`
/// and `message`.
pub open spec fn choice_of(document: JsonView) -> Result<Option<Seq<char>>, ShapeError> {
    if document is Object {
        match (document.get("delta"@), document.get("message"@)) {
            (Some(delta), None) => delta_of(delta),
            (None, Some(delta)) => delta_of(delta),
            (None, None) => Err(ShapeError::MissingDelta),
            (Some(_), Some(_)) => Err(ShapeError::DuplicateDelta),
        }
    } else {
        Err(ShapeError::ChoiceNotObject)
    }
}

/// The contents that JSON documents give as choices: that of each in
/// order, or the error of the first that is no choice.
pub open spec fn choices_of(documents: Seq<JsonView>) -> Result<Seq<Option<Seq<char>>>, ShapeError>
    decreases documents.len(),
{
    if documents.len() == 0 {
        Ok(Seq::empty())
    } else {
        match choices_of(documents.drop_last()) {
            Err(error) => Err(error),
            Ok(contents) => match choice_of(documents.last()) {
                Err(error) => Err(error),
                Ok(content) => Ok(contents.push(content)),
            },
        }
    }
}

/// The chunk that a JSON document gives, as the contents of its choices.
///
/// A chunk is an object whose member `choices` is an array of choices.
pub open spec fn chunk_of(document: JsonView) -> Result<Seq<Option<Seq<char>>>, ShapeError> {
    if document is Object {
        match document.get("choices"@) {
            None => Err(ShapeError::MissingChoices),
            Some(JsonView::Array(items)) => choices_of(items),
            Some(_) => Err(ShapeError::ChoicesNotArray),
        }
    } else {
        Err(ShapeError::ChunkNotObject)
    }
}

impl Delta {
    /// Reads a delta from a JSON document.
    pub fn from_json(document: &JsonValue) -> (delta: Result<Delta, ShapeError>)
        ensures
            match delta {
                Ok(d) => delta_of(document@) == Ok::<Option<Seq<char>>, ShapeError>(d@),
                Err(error) => delta_of(document@) == Err::<Option<Seq<char>>, ShapeError>(error),
            },
    {
        match document {
            JsonValue::Object(_) => match document.get("content") {
                None => Ok(Delta { content: None }),
                Some(JsonValue::Null) => Ok(Delta { content: None }),
                Some(JsonValue::Text(text)) => Ok(Delta { content: Some(text.clone()) }),
                Some(_) => Err(ShapeError::ContentNotText),
            },
            _ => Err(ShapeError::DeltaNotObject),
        }
    }
}

impl Choice {
    /// Reads a choice from a JSON document.
    pub fn from_json(document: &JsonValue) -> (choice: Result<Choice, ShapeError>)
        ensures
            match choice {
                Ok(c) => choice_of(document@) == Ok::<Option<Seq<char>>, ShapeError>(c@),
                Err(error) => choice_of(document@) == Err::<Option<Seq<char>>, ShapeError>(error),
            },
    {
        match document {
            JsonValue::Object(_) => {
                let found = match (document.get("delta"), document.get("message")) {
                    (Some(delta), None) => delta,
                    (None, Some(delta)) => delta,
                    (None, None) => {
                        return Err(ShapeError::MissingDelta);
                    },
                    (Some(_), Some(_)) => {
                        return Err(ShapeError::DuplicateDelta);
                    },
                };
                match Delta::from_json(found) {
                    Ok(delta) => Ok(Choice { delta }),
                    Err(error) => Err(error),
                }
            },
            _ => Err(ShapeError::ChoiceNotObject),
        }
    }
}

impl ChatCompletionChunk {
    /// Reads a chunk from a JSON document.
    pub fn from_json(document: &JsonValue) -> (chunk: Result<ChatCompletionChunk, ShapeError>)
        ensures
            match chunk {
                Ok(c) => chunk_of(document@) == Ok::<Seq<Option<Seq<char>>>, ShapeError>(c@),
                Err(error) => chunk_of(document@) == Err::<Seq<Option<Seq<char>>>, ShapeError>(
                    error,
                ),
            },
    {
        match document {
            JsonValue::Object(_) => match document.get("choices") {
                None => Err(ShapeError::MissingChoices),
                Some(JsonValue::Array(items)) => {
                    let ghost documents = document@.get("choices"@)->0->Array_0;
                    let mut choices: Vec<Choice> = Vec::new();
                    let mut i: usize = 0;
                    assert(choices@.map_values(|choice: Choice| choice@) =~= Seq::<
                        Option<Seq<char>>,
                    >::empty());
                    while i < items.len()
                        invariant
                            i <= items.len(),
                            chunk_of(document@) == choices_of(documents),
                            documents.len() == items.len(),
                            forall|k: int| 0 <= k < items.len() ==> documents[k] == items@[k]@,
                            choices_of(documents.take(i as int)) == Ok::<
                                Seq<Option<Seq<char>>>,
                                ShapeError,
                            >(choices@.map_values(|choice: Choice| choice@)),
                        decreases items.len() - i,
                    {
                        let ghost before = choices@.map_values(|choice: Choice| choice@);
                        assert(documents.take(i + 1).drop_last() =~= documents.take(i as int));
                        match Choice::from_json(&items[i]) {
                            Ok(choice) => {
                                choices.push(choice);
                                assert(choices@.map_values(|choice: Choice| choice@) =~= before.push(
                                    choice@,
                                ));
                            },
                            Err(error) => {
                                proof {
                                    lemma_choices_error(documents, i + 1);
                                }
                                return Err(error);
                            },
                        }
                        i += 1;
                    }
                    assert(documents.take(i as int) =~= documents);
                    Ok(ChatCompletionChunk { choices })
                },
                Some(_) => Err(ShapeError::ChoicesNotArray),
            },
            _ => Err(ShapeError::ChunkNotObject),
        }
    }
}

/// The first choice that fails decides: where the documents up to some
/// place give an error, all of them give that error.
pub proof fn lemma_choices_error(documents: Seq<JsonView>, upto: int)
    requires
        0 <= upto <= documents.len(),
        choices_of(documents.take(upto)) is Err,
    ensures
        choices_of(documents) == choices_of(documents.take(upto)),
    decreases documents.len() - upto,
{
    if upto < documents.len() {
        assert(documents.take(upto + 1).drop_last() =~= documents.take(upto));
        lemma_choices_error(documents, upto + 1);
    } else {
        assert(documents.take(upto) =~= documents);
    }
}

} // verus!
