use kindle_button_mapper::koreader::{event_request, send_event, status_code, Exchange, Reply};

#[test]
fn request_carries_the_event() {
    assert_eq!(
        event_request("GotoViewRel/1"),
        "GET /koreader/event/GotoViewRel/1 HTTP/1.1\r\nHost: 127.0.0.1:8080\r\nConnection: close\r\n\r\n"
    );
}

#[test]
fn status_is_the_second_word() {
    assert_eq!(status_code(b"HTTP/1.1 200 OK\r\n"), Some(200));
    assert_eq!(status_code(b"HTTP/1.0  404\r\n"), Some(404));
    assert_eq!(status_code(b"HTTP/1.1"), None);
    assert_eq!(status_code(b"HTTP/1.1 x"), None);
    assert_eq!(status_code(b"HTTP/1.1 70000"), None);
    assert_eq!(status_code(b""), None);
    assert_eq!(status_code(b"HTTP/1.1 200 \xff"), None);
    assert_eq!(status_code("é 200".as_bytes()), Some(200));
}

#[test]
fn delivered_events_are_taken() {
    assert_eq!(send_event(&Exchange::Unreachable), (false, Reply::NotDelivered));
    assert_eq!(send_event(&Exchange::Unsent), (false, Reply::NotDelivered));
    assert_eq!(send_event(&Exchange::Unanswered), (true, Reply::NoReply));
    assert_eq!(send_event(&Exchange::Answered(vec![])), (true, Reply::Closed));
    let answer = |s: &str| send_event(&Exchange::Answered(s.as_bytes().to_vec()));
    assert_eq!(answer("HTTP/1.1 200 OK"), (true, Reply::Accepted(200)));
    assert_eq!(answer("HTTP/1.1 299 OK"), (true, Reply::Accepted(299)));
    assert_eq!(answer("HTTP/1.1 300 OK"), (true, Reply::Rejected(300)));
    assert_eq!(answer("HTTP/1.1 199 OK"), (true, Reply::Rejected(199)));
    assert_eq!(answer("nonsense"), (true, Reply::NoStatus));
}
