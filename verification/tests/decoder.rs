use chat_completions::chunk::{ChatCompletionChunk, Choice, Delta, ShapeError};
use chat_completions::json::{parse_json, JsonValue, Member};
use chat_completions::stream::{decode_lines, next_chunk, ChatCompletionStream, DecodeError, Step};
use chat_completions::text::{chars_of, contains_chars, position};

fn chunk(contents: &[Option<&str>]) -> ChatCompletionChunk {
    ChatCompletionChunk {
        choices: contents
            .iter()
            .map(|content| Choice { delta: Delta { content: content.map(|text| text.to_string()) } })
            .collect(),
    }
}

fn line(text: &str) -> Result<String, String> {
    Ok(text.to_string())
}

#[test]
fn sentinel_alone_ends_the_stream() {
    assert_eq!(next_chunk("[DONE]".to_string()), Ok(None));
}

#[test]
fn sentinel_after_a_prefix_ends_the_stream() {
    assert_eq!(next_chunk("data: [DONE]".to_string()), Ok(None));
}

#[test]
fn sentinel_anywhere_ends_the_stream() {
    let text = "{\"choices\":[{\"delta\":{\"content\":\"x [DONE] y\"}}]}";
    assert_eq!(next_chunk(text.to_string()), Ok(None));
    assert_eq!(next_chunk("junk[DONE]{not json".to_string()), Ok(None));
}

#[test]
fn broken_sentinel_does_not_end_the_stream() {
    let decoded = next_chunk("[DONE".to_string());
    assert!(matches!(decoded, Err(DecodeError::Syntax(_))));
    let decoded = next_chunk("[done]".to_string());
    assert!(matches!(decoded, Err(DecodeError::Syntax(_))));
}

#[test]
fn prefix_before_the_first_brace_is_dropped() {
    let decoded = next_chunk("foo: {\"choices\":[{\"delta\":{\"content\":\"hi\"}}]}".to_string());
    let chunk = decoded.unwrap().unwrap();
    assert_eq!(chunk.choices.len(), 1);
    assert_eq!(chunk.choices[0].delta.content, Some("hi".to_string()));
}

#[test]
fn line_without_prefix_is_decoded() {
    let decoded = next_chunk("{\"choices\":[{\"delta\":{\"content\":\"hi\"}}]}".to_string());
    assert_eq!(decoded, Ok(Some(chunk(&[Some("hi")]))));
}

#[test]
fn delta_may_be_named_message() {
    let decoded = next_chunk("data: {\"choices\":[{\"message\":{\"content\":\"hi\"}}]}".to_string());
    assert_eq!(decoded, Ok(Some(chunk(&[Some("hi")]))));
}

#[test]
fn absent_and_null_content_are_no_content() {
    let decoded = next_chunk("{\"choices\":[{\"delta\":{}},{\"delta\":{\"content\":null}}]}".to_string());
    assert_eq!(decoded, Ok(Some(chunk(&[None, None]))));
}

#[test]
fn members_with_other_names_are_passed_over() {
    let text = "data: {\"id\":\"c1\",\"choices\":[{\"index\":0,\"delta\":{\"role\":\"assistant\",\"content\":\"hi\"},\"finish_reason\":null}],\"created\":1}";
    assert_eq!(next_chunk(text.to_string()), Ok(Some(chunk(&[Some("hi")]))));
}

#[test]
fn chunk_without_choices_is_empty() {
    assert_eq!(next_chunk("{\"choices\":[]}".to_string()), Ok(Some(chunk(&[]))));
}

#[test]
fn escapes_in_content_are_resolved() {
    let decoded = next_chunk("{\"choices\":[{\"delta\":{\"content\":\"a\\nb\\u00e9\"}}]}".to_string());
    assert_eq!(decoded, Ok(Some(chunk(&[Some("a\nb\u{e9}")]))));
}

#[test]
fn text_that_is_no_json_is_a_syntax_error() {
    let decoded = next_chunk("data: {\"choices\":".to_string());
    match decoded {
        Err(DecodeError::Syntax(message)) => {
            assert_eq!(message, "EOF while parsing a value at line 1 column 11");
        }
        other => panic!("unexpected: {:?}", other),
    }
}

#[test]
fn line_without_brace_is_read_whole() {
    let decoded = next_chunk("hello".to_string());
    match decoded {
        Err(DecodeError::Syntax(message)) => {
            assert_eq!(message, "expected value at line 1 column 1");
        }
        other => panic!("unexpected: {:?}", other),
    }
    assert!(matches!(next_chunk(String::new()), Err(DecodeError::Syntax(_))));
}

#[test]
fn text_behind_the_chunk_is_a_syntax_error() {
    let decoded = next_chunk("{\"choices\":[]} tail".to_string());
    assert!(matches!(decoded, Err(DecodeError::Syntax(_))));
}

#[test]
fn shape_errors_name_what_is_wrong() {
    let cases = [
        ("[1]", ShapeError::ChunkNotObject),
        ("null", ShapeError::ChunkNotObject),
        ("{\"chosen\":[]}", ShapeError::MissingChoices),
        ("{\"choices\":{}}", ShapeError::ChoicesNotArray),
        ("{\"choices\":null}", ShapeError::ChoicesNotArray),
        ("{\"choices\":[1]}", ShapeError::ChoiceNotObject),
        ("{\"choices\":[{}]}", ShapeError::MissingDelta),
        ("{\"choices\":[{\"delta\":{},\"message\":{}}]}", ShapeError::DuplicateDelta),
        ("{\"choices\":[{\"delta\":\"x\"}]}", ShapeError::DeltaNotObject),
        ("{\"choices\":[{\"delta\":{\"content\":5}}]}", ShapeError::ContentNotText),
        ("{\"choices\":[{\"delta\":{\"content\":\"ok\"}},{\"delta\":[]}]}", ShapeError::DeltaNotObject),
    ];
    for (text, error) in cases {
        assert_eq!(next_chunk(text.to_string()), Err(DecodeError::Shape(error)), "{}", text);
    }
}

#[test]
fn document_that_is_no_object_is_no_chunk() {
    let document = parse_json("[[]]").unwrap();
    assert_eq!(ChatCompletionChunk::from_json(&document), Err(ShapeError::ChunkNotObject));
    let document = parse_json("\"choices\"").unwrap();
    assert_eq!(ChatCompletionChunk::from_json(&document), Err(ShapeError::ChunkNotObject));
    assert_eq!(Choice::from_json(&JsonValue::Null), Err(ShapeError::ChoiceNotObject));
    assert_eq!(Delta::from_json(&JsonValue::Bool(true)), Err(ShapeError::DeltaNotObject));
}

#[test]
fn first_failing_choice_decides() {
    let text = "{\"choices\":[{\"delta\":{\"content\":1}},{}]}";
    assert_eq!(next_chunk(text.to_string()), Err(DecodeError::Shape(ShapeError::ContentNotText)));
    let text = "{\"choices\":[{},{\"delta\":{\"content\":1}}]}";
    assert_eq!(next_chunk(text.to_string()), Err(DecodeError::Shape(ShapeError::MissingDelta)));
}

#[test]
fn error_messages_start_with_malformed_json() {
    assert_eq!(
        DecodeError::Syntax("expected value at line 1 column 1".to_string()).message(),
        "Malformed JSON: expected value at line 1 column 1"
    );
    assert_eq!(
        DecodeError::Shape(ShapeError::MissingChoices).message(),
        "Malformed JSON: missing field `choices`"
    );
    assert_eq!(DecodeError::Read("connection reset".to_string()).message(), "connection reset");
}

#[test]
fn every_shape_error_has_its_words() {
    assert_eq!(ShapeError::ChunkNotObject.describe(), "a chunk must be an object");
    assert_eq!(ShapeError::MissingChoices.describe(), "missing field `choices`");
    assert_eq!(ShapeError::ChoicesNotArray.describe(), "`choices` must be an array");
    assert_eq!(ShapeError::ChoiceNotObject.describe(), "a choice must be an object");
    assert_eq!(ShapeError::MissingDelta.describe(), "missing field `delta`");
    assert_eq!(ShapeError::DuplicateDelta.describe(), "duplicate field `delta`");
    assert_eq!(ShapeError::DeltaNotObject.describe(), "`delta` must be an object");
    assert_eq!(ShapeError::ContentNotText.describe(), "`content` must be a string or null");
}

#[test]
fn json_is_read_into_a_tree() {
    let tree = parse_json("{\"b\":[1,true,null,\"x\"],\"a\":{\"c\":-2.5}}").unwrap();
    let expected = JsonValue::Object(vec![
        Member {
            name: "a".to_string(),
            value: JsonValue::Object(vec![Member { name: "c".to_string(), value: JsonValue::Number }]),
        },
        Member {
            name: "b".to_string(),
            value: JsonValue::Array(vec![
                JsonValue::Number,
                JsonValue::Bool(true),
                JsonValue::Null,
                JsonValue::Text("x".to_string()),
            ]),
        },
    ]);
    assert_eq!(tree, expected);
}

#[test]
fn json_errors_come_with_the_readers_message() {
    assert_eq!(parse_json("{"), Err("EOF while parsing an object at line 1 column 1".to_string()));
    assert_eq!(parse_json("[1,]"), Err("trailing comma at line 1 column 4".to_string()));
}

#[test]
fn members_are_found_by_name() {
    let tree = parse_json("{\"one\":1,\"two\":\"2\"}").unwrap();
    assert_eq!(tree.get("two"), Some(&JsonValue::Text("2".to_string())));
    assert_eq!(tree.get("one"), Some(&JsonValue::Number));
    assert_eq!(tree.get("three"), None);
    assert_eq!(tree.get(""), None);
    assert_eq!(JsonValue::Array(Vec::new()).get("one"), None);
    let twice = JsonValue::Object(vec![
        Member { name: "k".to_string(), value: JsonValue::Bool(false) },
        Member { name: "k".to_string(), value: JsonValue::Bool(true) },
    ]);
    assert_eq!(twice.get("k"), Some(&JsonValue::Bool(false)));
}

#[test]
fn stream_reads_every_other_line() {
    let l1 = "data: {\"choices\":[{\"delta\":{\"content\":\"one\"}}]}";
    let l2 = "data: {\"choices\":[{\"delta\":{\"content\":\"two\"}}]}";
    let sep = "{\"choices\":[{\"delta\":{\"content\":\"never\"}}]}";
    let steps = decode_lines(vec![line(l1), line(sep), line(l2), line(""), line("[DONE]"), line(sep)]);
    assert_eq!(
        steps,
        vec![
            Step::Chunk(chunk(&[Some("one")])),
            Step::Skipped,
            Step::Chunk(chunk(&[Some("two")])),
            Step::Skipped,
            Step::End,
            Step::End,
        ]
    );
    let chunks = steps.iter().filter(|step| matches!(step, Step::Chunk(_))).count();
    assert_eq!(chunks, 2);
}

#[test]
fn sentinel_in_a_separator_is_not_seen() {
    let l1 = "{\"choices\":[{\"delta\":{\"content\":\"one\"}}]}";
    let steps = decode_lines(vec![line(l1), line("[DONE]"), line(l1)]);
    assert_eq!(
        steps,
        vec![Step::Chunk(chunk(&[Some("one")])), Step::Skipped, Step::Chunk(chunk(&[Some("one")]))]
    );
}

#[test]
fn malformed_line_does_not_stop_the_stream() {
    let good = "data: {\"choices\":[{\"delta\":{\"content\":\"ok\"}}]}";
    let steps = decode_lines(vec![line("data: {oops"), line(""), line(good), line("")]);
    assert_eq!(steps.len(), 4);
    assert!(matches!(steps[0], Step::Failed(DecodeError::Syntax(_))));
    assert_eq!(steps[1], Step::Skipped);
    assert_eq!(steps[2], Step::Chunk(chunk(&[Some("ok")])));
    assert_eq!(steps[3], Step::Skipped);
}

#[test]
fn unreadable_line_is_an_item_of_its_own() {
    let good = "{\"choices\":[{\"delta\":{\"content\":\"ok\"}}]}";
    let steps = decode_lines(vec![
        Err("stream did not contain valid UTF-8".to_string()),
        Err("ignored".to_string()),
        line(good),
    ]);
    assert_eq!(
        steps,
        vec![
            Step::Failed(DecodeError::Read("stream did not contain valid UTF-8".to_string())),
            Step::Skipped,
            Step::Chunk(chunk(&[Some("ok")])),
        ]
    );
}

#[test]
fn stream_moves_through_its_states() {
    let mut stream = ChatCompletionStream::new();
    assert_eq!(stream, ChatCompletionStream::AwaitingPayload);
    assert!(!stream.is_done());
    assert_eq!(stream.next(line("{\"choices\":[]}")), Step::Chunk(chunk(&[])));
    assert_eq!(stream, ChatCompletionStream::AwaitingSeparator);
    assert_eq!(stream.next(line("anything")), Step::Skipped);
    assert_eq!(stream, ChatCompletionStream::AwaitingPayload);
    assert_eq!(stream.next(line("data: [DONE]")), Step::End);
    assert_eq!(stream, ChatCompletionStream::Done);
    assert!(stream.is_done());
    assert_eq!(stream.next(line("{\"choices\":[]}")), Step::End);
    assert_eq!(stream.next(Err("late".to_string())), Step::End);
    assert_eq!(stream, ChatCompletionStream::Done);
}

#[test]
fn empty_body_gives_no_steps() {
    assert_eq!(decode_lines(Vec::new()), Vec::new());
}

#[test]
fn chunk_text_joins_the_contents() {
    assert_eq!(chunk(&[Some("Hel"), None, Some("lo")]).text(), "Hello");
    assert_eq!(chunk(&[]).text(), "");
    assert_eq!(chunk(&[None]).text(), "");
}

#[test]
fn characters_are_found() {
    let hay = chars_of("data: {\"a\":{}}");
    assert_eq!(hay.len(), 14);
    assert_eq!(position(&hay, '{'), 6);
    assert_eq!(position(&hay, 'd'), 0);
    assert_eq!(position(&hay, 'z'), 14);
    assert_eq!(position(&Vec::new(), 'z'), 0);
    assert_eq!(chars_of("h\u{e9}llo"), vec!['h', '\u{e9}', 'l', 'l', 'o']);
}

#[test]
fn substrings_are_found() {
    let hay = chars_of("abc[DONE]");
    assert!(contains_chars(&hay, &chars_of("[DONE]")));
    assert!(contains_chars(&hay, &chars_of("abc")));
    assert!(contains_chars(&hay, &chars_of("")));
    assert!(contains_chars(&hay, &hay));
    assert!(!contains_chars(&hay, &chars_of("[DONE] ")));
    assert!(!contains_chars(&hay, &chars_of("abd")));
    assert!(!contains_chars(&chars_of("[DON"), &chars_of("[DONE]")));
    assert!(contains_chars(&Vec::new(), &Vec::new()));
    assert!(!contains_chars(&Vec::new(), &chars_of("x")));
}

#[test]
fn prefix_with_many_bytes_per_character_is_dropped() {
    let decoded = next_chunk("\u{e9}\u{4e16}\u{1f600}: {\"choices\":[{\"delta\":{\"content\":\"\u{4e16}\"}}]}".to_string());
    assert_eq!(decoded, Ok(Some(chunk(&[Some("\u{4e16}")]))));
}

#[test]
fn body_without_separators_loses_every_other_payload() {
    let payload = |text: &str| line(&format!("{{\"choices\":[{{\"delta\":{{\"content\":\"{}\"}}}}]}}", text));
    let steps = decode_lines(vec![payload("1"), payload("2"), payload("3"), payload("4")]);
    assert_eq!(
        steps,
        vec![
            Step::Chunk(chunk(&[Some("1")])),
            Step::Skipped,
            Step::Chunk(chunk(&[Some("3")])),
            Step::Skipped,
        ]
    );
}
