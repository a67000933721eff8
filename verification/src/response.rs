//! The answer to a request: which document and status, and the text that goes
//! back.

use vstd::prelude::*;
use vstd::string::*;
use vstd::utf8::encode_utf8;

verus! {

/// The character of a decimal digit.
pub open spec fn digit(d: nat) -> char {
    if d == 0 {
        '0'
    } else if d == 1 {
        '1'
    } else if d == 2 {
        '2'
    } else if d == 3 {
        '3'
    } else if d == 4 {
        '4'
    } else if d == 5 {
        '5'
    } else if d == 6 {
        '6'
    } else if d == 7 {
        '7'
    } else if d == 8 {
        '8'
    } else {
        '9'
    }
}

/// A number in decimal, without leading zeros.
pub open spec fn decimal(n: nat) -> Seq<char>
    decreases n,
{
    if n < 10 {
        seq![digit(n)]
    } else {
        decimal(n / 10).push(digit(n % 10))
    }
}

/// The status that goes with a document that was found, or was not.
pub open spec fn status_of(found: bool) -> Seq<char> {
    if found {
        "200 OK"@
    } else {
        "404 NOT FOUND"@
    }
}

/// The document to send: the one asked for where it was found, the page for
/// a missing one otherwise.
pub open spec fn document_of(found: bool, path: Seq<char>) -> Seq<char> {
    if found {
        path
    } else {
        "404.html"@
    }
}

/// The body to send: the document's text, or a fixed sentence where the
/// document could not be read as text.
pub open spec fn body_of(contents: Option<Seq<char>>) -> Seq<char> {
    match contents {
        Some(text) => text,
        None => "File not supported!"@,
    }
}

/// A response: the status line, the length of the body in bytes, an empty
/// line, the body.
pub open spec fn response_of(code: Seq<char>, body: Seq<char>) -> Seq<char> {
    "HTTP/1.1 "@ + code + "\r\nContent-Length:"@ + decimal(encode_utf8(body).len())
        + "\r\n\r\n"@ + body
}

fn digit_str(d: usize) -> (s: &'static str)
    requires
        d < 10,
    ensures
        s@ == seq![digit(d as nat)],
{
    let s = if d == 0 {
        "0"
    } else if d == 1 {
        "1"
    } else if d == 2 {
        "2"
    } else if d == 3 {
        "3"
    } else if d == 4 {
        "4"
    } else if d == 5 {
        "5"
    } else if d == 6 {
        "6"
    } else if d == 7 {
        "7"
    } else if d == 8 {
        "8"
    } else {
        "9"
    };
    proof {
        reveal_strlit("0");
        reveal_strlit("1");
        reveal_strlit("2");
        reveal_strlit("3");
        reveal_strlit("4");
        reveal_strlit("5");
        reveal_strlit("6");
        reveal_strlit("7");
        reveal_strlit("8");
        reveal_strlit("9");
        assert(s@ =~= seq![digit(d as nat)]);
    }
    s
}

/// Writes `n` in decimal behind what `out` holds.
fn append_decimal(out: &mut String, n: usize)
    ensures
        final(out)@ == old(out)@ + decimal(n as nat),
    decreases n,
{
    if n >= 10 {
        append_decimal(out, n / 10);
    }
    out.append(digit_str(n % 10));
    assert(final(out)@ =~= old(out)@ + decimal(n as nat));
}

/// Chooses status and document by whether the document asked for exists.
pub fn select_document<'a>(found: bool, path: &'a str) -> (chosen: (&'static str, &'a str))
    ensures
        chosen.0@ == status_of(found),
        chosen.1@ == document_of(found, path@),
{
    if found {
        ("200 OK", path)
    } else {
        ("404 NOT FOUND", "404.html")
    }
}

/// The text of a response with the status `code`. `contents` is the text of
/// the document, `None` where it could not be read.
pub fn get_response(code: &str, contents: Option<String>) -> (response: String)
    ensures
        response@ == response_of(
            code@,
            body_of(
                match contents {
                    Some(text) => Some(text@),
                    None => None,
                },
            ),
        ),
{
    let body = match contents {
        Some(text) => text,
        None => String::from_str("File not supported!"),
    };
    let mut response = String::from_str("HTTP/1.1 ");
    response.append(code);
    response.append("\r\nContent-Length:");
    let length: usize = body.as_str().as_bytes().len();
    append_decimal(&mut response, length);
    response.append("\r\n\r\n");
    response.append(body.as_str());
    assert(response@ =~= response_of(code@, body@));
    response
}

} // verus!
