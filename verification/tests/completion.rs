use chat_completions::completion::{completion_text, end_marker, Action, Completion};
use chat_completions::request::{content_type, endpoint, read_timeout_secs, status_error, StatusCode};
use chat_completions::stream::DecodeError;

fn line(text: &str) -> Result<String, String> {
    Ok(text.to_string())
}

#[test]
fn contents_add_up_to_the_response() {
    let lines = vec![
        line("data: {\"choices\":[{\"delta\":{\"content\":\"Hel\"}}]}"),
        line(""),
        line("data: {\"choices\":[{\"delta\":{\"content\":\"lo\"}},{\"delta\":{}}]}"),
        line(""),
        line("data: [DONE]"),
        line(""),
    ];
    assert_eq!(completion_text(lines), "Hello");
}

#[test]
fn malformed_chunk_adds_nothing() {
    let lines = vec![
        line("data: {\"choices\":[{\"delta\":{\"content\":\"Hel\"}}]}"),
        line(""),
        line("data: {\"choices\":"),
        line(""),
        line("data: {\"choices\":[{\"delta\":{\"content\":\"lo\"}}]}"),
    ];
    assert_eq!(completion_text(lines), "Hello");
}

#[test]
fn nothing_behind_the_sentinel_is_added() {
    let lines = vec![
        line("{\"choices\":[{\"delta\":{\"content\":\"a\"}}]}"),
        line(""),
        line("[DONE]"),
        line(""),
        line("{\"choices\":[{\"delta\":{\"content\":\"b\"}}]}"),
    ];
    assert_eq!(completion_text(lines), "a");
}

#[test]
fn body_without_sentinel_is_read_to_its_end() {
    let lines = vec![
        line("{\"choices\":[{\"delta\":{\"content\":\"a\"}}]}"),
        line(""),
        line("{\"choices\":[{\"delta\":{\"content\":\"b\"}}]}"),
    ];
    assert_eq!(completion_text(lines), "ab");
    assert_eq!(completion_text(Vec::new()), "");
}

#[test]
fn completion_says_what_to_do_after_each_line() {
    let mut completion = Completion::new();
    assert_eq!(completion.response(), "");
    assert_eq!(
        completion.accept(line("data: {\"choices\":[{\"delta\":{\"content\":\"Hel\"}}]}")),
        Action::Write("Hel".to_string())
    );
    assert_eq!(completion.accept(line("")), Action::Continue);
    assert_eq!(completion.response(), "Hel");
    match completion.accept(line("data: nonsense")) {
        Action::Report(DecodeError::Syntax(_)) => {}
        other => panic!("unexpected: {:?}", other),
    }
    assert_eq!(completion.accept(line("")), Action::Continue);
    assert_eq!(
        completion.accept(Err("broken pipe".to_string())),
        Action::Report(DecodeError::Read("broken pipe".to_string()))
    );
    assert_eq!(completion.accept(line("")), Action::Continue);
    assert_eq!(
        completion.accept(line("data: {\"choices\":[{\"delta\":{}},{\"delta\":{\"content\":\"lo\"}}]}")),
        Action::Write("lo".to_string())
    );
    assert_eq!(completion.accept(line("")), Action::Continue);
    assert_eq!(
        completion.accept(line("data: {\"choices\":[]}")),
        Action::Write(String::new())
    );
    assert_eq!(completion.accept(line("")), Action::Continue);
    assert!(!completion.is_done());
    assert_eq!(completion.accept(line("data: [DONE]")), Action::Finish);
    assert!(completion.is_done());
    assert_eq!(completion.accept(line("{\"choices\":[{\"delta\":{\"content\":\"!\"}}]}")), Action::Finish);
    assert_eq!(completion.response(), "Hello");
    assert_eq!(completion.into_response(), "Hello");
}

#[test]
fn failing_status_is_told_with_its_body() {
    let status = StatusCode::from_u16(401).unwrap();
    assert!(!status.is_success());
    let message = status_error(status, "unauthorized");
    assert!(message.contains("401"));
    assert!(message.contains("unauthorized"));
    assert_eq!(message, "Status Code: 401 Unauthorized\nResponse: unauthorized");
}

#[test]
fn status_without_a_standard_reason_is_told_too() {
    let status = StatusCode::from_u16(799).unwrap();
    assert_eq!(status_error(status, ""), "Status Code: 799 <unknown status code>\nResponse: ");
    let status = StatusCode::from_u16(500).unwrap();
    assert_eq!(
        status_error(status, "{\"error\":\"boom\"}"),
        "Status Code: 500 Internal Server Error\nResponse: {\"error\":\"boom\"}"
    );
}

#[test]
fn status_numbers_run_from_100_to_999() {
    assert!(StatusCode::from_u16(0).is_none());
    assert!(StatusCode::from_u16(99).is_none());
    assert_eq!(StatusCode::from_u16(100).unwrap().as_u16(), 100);
    assert_eq!(StatusCode::from_u16(999).unwrap().as_u16(), 999);
    assert!(StatusCode::from_u16(1000).is_none());
    assert!(StatusCode::from_u16(u16::MAX).is_none());
}

#[test]
fn success_is_200_to_299() {
    let success = |code: u16| StatusCode::from_u16(code).unwrap().is_success();
    assert!(!success(100));
    assert!(!success(199));
    assert!(success(200));
    assert!(success(204));
    assert!(success(299));
    assert!(!success(300));
    assert!(!success(404));
    assert!(!success(999));
}

#[test]
fn request_goes_to_the_completions_endpoint() {
    assert_eq!(endpoint("http://localhost:8080"), "http://localhost:8080/v1/chat/completions");
    assert_eq!(endpoint(""), "/v1/chat/completions");
    assert_eq!(content_type(), "application/json");
    assert_eq!(read_timeout_secs(), 600);
}

#[test]
fn end_marker_is_a_line_between_blank_lines() {
    assert_eq!(end_marker(), "\n----------END_OF_RESPONSE----------\n\n\n");
}
