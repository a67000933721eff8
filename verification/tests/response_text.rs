use websvr::{get_response, select_document};

#[test]
fn found_document_is_sent_with_200() {
    assert_eq!(select_document(true, "./hello.html"), ("200 OK", "./hello.html"));
}

#[test]
fn missing_document_is_answered_with_the_404_page() {
    assert_eq!(select_document(false, "./nothing.html"), ("404 NOT FOUND", "404.html"));
}

#[test]
fn response_holds_status_length_blank_line_body() {
    assert_eq!(
        get_response("200 OK", Some(String::from("hello"))),
        "HTTP/1.1 200 OK\r\nContent-Length:5\r\n\r\nhello"
    );
}

#[test]
fn unreadable_document_gets_the_fixed_sentence() {
    assert_eq!(
        get_response("404 NOT FOUND", None),
        "HTTP/1.1 404 NOT FOUND\r\nContent-Length:19\r\n\r\nFile not supported!"
    );
}

#[test]
fn empty_body_has_length_zero() {
    assert_eq!(get_response("200 OK", Some(String::new())), "HTTP/1.1 200 OK\r\nContent-Length:0\r\n\r\n");
}

#[test]
fn length_counts_bytes_not_characters() {
    assert_eq!(
        get_response("200 OK", Some(String::from("caf\u{e9}"))),
        "HTTP/1.1 200 OK\r\nContent-Length:5\r\n\r\ncaf\u{e9}"
    );
}

#[test]
fn length_is_written_in_decimal() {
    let body = "x".repeat(1203);
    let expected = format!("HTTP/1.1 200 OK\r\nContent-Length:1203\r\n\r\n{}", body);
    assert_eq!(get_response("200 OK", Some(body)), expected);
    let ten = "0123456789";
    assert_eq!(
        get_response("200 OK", Some(String::from(ten))),
        "HTTP/1.1 200 OK\r\nContent-Length:10\r\n\r\n0123456789"
    );
}
