use websvr::{HttpRequest, Method};

fn read(line: &str) -> (Method, String) {
    let req = HttpRequest::new(String::from(line));
    (req.method, req.url)
}

#[test]
fn root_path_names_the_default_document() {
    assert_eq!(read("GET / HTTP/1.1"), (Method::Get, String::from("index.html")));
}

#[test]
fn path_is_appended_to_the_dot() {
    assert_eq!(read("GET /hello.html HTTP/1.1"), (Method::Get, String::from("./hello.html")));
}

#[test]
fn other_methods_are_post() {
    assert_eq!(read("POST /form HTTP/1.1"), (Method::Post, String::from("./form")));
    assert_eq!(read("DELETE /x HTTP/1.1"), (Method::Post, String::from("./x")));
    assert_eq!(read("get / HTTP/1.1"), (Method::Post, String::from("index.html")));
}

#[test]
fn method_goes_by_the_first_three_letters() {
    assert_eq!(read("GET"), (Method::Get, String::from(".")));
    assert_eq!(read("GETTING /a"), (Method::Get, String::from("./a")));
    assert_eq!(read("GE"), (Method::Post, String::from(".")));
    assert_eq!(read(" GET /a"), (Method::Post, String::from("./a")));
}

#[test]
fn empty_line_is_a_post_for_the_dot() {
    assert_eq!(read(""), (Method::Post, String::from(".")));
}

#[test]
fn line_without_a_path_keeps_the_dot() {
    assert_eq!(read("GET HTTP/1.1"), (Method::Get, String::from(".")));
}

#[test]
fn every_path_field_is_taken_in_turn() {
    assert_eq!(read("GET /a /b"), (Method::Get, String::from("./a/b")));
    assert_eq!(read("GET /a / x"), (Method::Get, String::from("index.html")));
    assert_eq!(read("GET / /a"), (Method::Get, String::from("index.html/a")));
    assert_eq!(read("GET /a /"), (Method::Get, String::from("index.html")));
}

#[test]
fn fields_are_split_at_single_spaces() {
    assert_eq!(read("GET  /a  HTTP/1.1"), (Method::Get, String::from("./a")));
    assert_eq!(read("GET /a/b/c.html?x=1 "), (Method::Get, String::from("./a/b/c.html?x=1")));
    assert_eq!(read("/only"), (Method::Post, String::from("./only")));
    assert_eq!(read("/"), (Method::Post, String::from("index.html")));
    assert_eq!(read("GET a/b"), (Method::Get, String::from(".")));
}

#[test]
fn other_white_space_does_not_split() {
    assert_eq!(read("GET\t/a"), (Method::Get, String::from(".")));
    assert_eq!(read("GET /a\t/b"), (Method::Get, String::from("./a\t/b")));
}

#[test]
fn characters_beyond_ascii_are_kept() {
    assert_eq!(read("GET /caf\u{e9}.html HTTP/1.1"), (Method::Get, String::from("./caf\u{e9}.html")));
    assert_eq!(read("\u{4e0b}\u{73ed} /\u{4efb}\u{52a1} x"), (Method::Post, String::from("./\u{4efb}\u{52a1}")));
}
