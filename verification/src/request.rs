//! The first line of an HTTP request: its method and the path of the document
//! it names.

use vstd::prelude::*;
use vstd::string::*;

verus! {

/// The two ways a request line is treated: only a `Get` is answered.
#[derive(Clone, Copy, Debug, PartialEq, Eq, Structural)]
pub enum Method {
    Post,
    Get,
}

/// A request line, read.
pub struct HttpRequest {
    pub method: Method,
    pub url: String,
}

/// The length of the first field of `s`: the number of characters before its
/// first space, all of them where it has none.
pub open spec fn field_len(s: Seq<char>) -> nat
    decreases s.len(),
{
    if s.len() == 0 || s[0] == ' ' {
        0
    } else {
        1 + field_len(s.drop_first())
    }
}

/// The fields of `s`: what stands between its spaces. A line without a space
/// is one field; two spaces in a row hold an empty field between them.
pub open spec fn fields(s: Seq<char>) -> Seq<Seq<char>>
    decreases s.len(),
{
    let n = field_len(s) as int;
    if n >= s.len() {
        seq![s]
    } else {
        seq![s.take(n)] + fields(s.skip(n + 1))
    }
}

/// What one field does to the path gathered so far. A field that starts with
/// a slash is a path: a lone slash names the default document and forgets what
/// came before, any other is appended. Other fields change nothing.
pub open spec fn routed(url: Seq<char>, field: Seq<char>) -> Seq<char> {
    if field.len() > 0 && field[0] == '/' {
        if field.len() == 1 {
            "index.html"@
        } else {
            url + field
        }
    } else {
        url
    }
}

/// The path after the fields `fs` were taken in, first to last, onto `url`.
pub open spec fn routed_all(url: Seq<char>, fs: Seq<Seq<char>>) -> Seq<char>
    decreases fs.len(),
{
    if fs.len() == 0 {
        url
    } else {
        routed_all(routed(url, fs[0]), fs.drop_first())
    }
}

/// The method of a request line: `Get` where it starts with the letters GET,
/// `Post` for every other line.
pub open spec fn method_of(line: Seq<char>) -> Method {
    if "GET"@.is_prefix_of(line) {
        Method::Get
    } else {
        Method::Post
    }
}

/// The document path of a request line: a dot, then every field in turn.
pub open spec fn url_of(line: Seq<char>) -> Seq<char> {
    routed_all("."@, fields(line))
}

/// The first field ends at the first space.
pub proof fn lemma_field_len(s: Seq<char>, k: int)
    requires
        0 <= k <= s.len(),
        forall|j: int| 0 <= j < k ==> s[j] != ' ',
        k < s.len() ==> s[k] == ' ',
    ensures
        field_len(s) == k,
    decreases k,
{
    if k > 0 {
        lemma_field_len(s.drop_first(), k - 1);
    }
}

/// The fields `fs` put together again, with one space between neighbours.
pub open spec fn joined(fs: Seq<Seq<char>>) -> Seq<char>
    decreases fs.len(),
{
    if fs.len() == 0 {
        Seq::empty()
    } else if fs.len() == 1 {
        fs[0]
    } else {
        fs[0] + seq![' '] + joined(fs.drop_first())
    }
}

/// The first field holds no space, and a space follows it where the line
/// goes on.
pub proof fn lemma_first_field(s: Seq<char>)
    ensures
        field_len(s) <= s.len(),
        forall|j: int| 0 <= j < field_len(s) ==> s[j] != ' ',
        field_len(s) < s.len() ==> s[field_len(s) as int] == ' ',
    decreases s.len(),
{
    if s.len() > 0 && s[0] != ' ' {
        let t = s.drop_first();
        lemma_first_field(t);
        assert forall|j: int| 0 <= j < field_len(s) implies s[j] != ' ' by {
            if j > 0 {
                assert(s[j] == t[j - 1]);
            }
        }
        if field_len(s) < s.len() {
            assert(s[field_len(s) as int] == t[field_len(t) as int]);
        }
    }
}

/// Splitting loses nothing: a line has at least one field, no field holds a
/// space, and the fields joined by spaces are the line again.
pub proof fn lemma_fields_split(s: Seq<char>)
    ensures
        fields(s).len() >= 1,
        forall|k: int, j: int|
            0 <= k < fields(s).len() && 0 <= j < fields(s)[k].len() ==> fields(s)[k][j] != ' ',
        joined(fields(s)) == s,
    decreases s.len(),
{
    lemma_first_field(s);
    let n = field_len(s) as int;
    if n < s.len() {
        let head = seq![s.take(n)];
        let tail = fields(s.skip(n + 1));
        lemma_fields_split(s.skip(n + 1));
        assert((head + tail).drop_first() =~= tail);
        assert(joined(fields(s)) =~= s);
        assert forall|k: int, j: int|
            0 <= k < fields(s).len() && 0 <= j < fields(s)[k].len() implies fields(s)[k][j]
            != ' ' by {
            if k > 0 {
                assert(fields(s)[k] == tail[k - 1]);
            }
        }
    }
}

/// Taking in the fields of `s` is taking in its first field, then the fields
/// of what follows the space behind it.
pub proof fn lemma_routed_all_step(url: Seq<char>, s: Seq<char>)
    requires
        field_len(s) < s.len(),
    ensures
        routed_all(url, fields(s)) == routed_all(
            routed(url, s.take(field_len(s) as int)),
            fields(s.skip(field_len(s) as int + 1)),
        ),
{
    let n = field_len(s) as int;
    let head = seq![s.take(n)];
    let tail = fields(s.skip(n + 1));
    assert((head + tail).drop_first() =~= tail);
    assert((head + tail)[0] == s.take(n));
}

/// Taking in the fields of a line without a space is taking in the line.
pub proof fn lemma_routed_all_last(url: Seq<char>, s: Seq<char>)
    requires
        field_len(s) >= s.len(),
    ensures
        routed_all(url, fields(s)) == routed(url, s),
{
    assert(seq![s].drop_first() =~= Seq::<Seq<char>>::empty());
    assert(routed_all(routed(url, s), Seq::<Seq<char>>::empty()) == routed(url, s));
}

/// The characters of `s`, one by one.
fn chars_of(s: &str) -> (chars: Vec<char>)
    ensures
        chars@ == s@,
{
    let mut chars: Vec<char> = Vec::new();
    for c in it: s.chars()
        invariant
            it.seq() == s@,
            chars@.len() == it.index(),
            forall|j: int| 0 <= j < chars@.len() ==> chars@[j] == it.seq()[j],
    {
        chars.push(c);
    }
    assert(chars@ =~= s@);
    chars
}

/// Takes into the path the field that stands in `line` from `start` up to
/// `end`.
fn route(url: &mut String, line: &str, chars: &Vec<char>, start: usize, end: usize)
    requires
        chars@ == line@,
        start <= end <= chars@.len(),
    ensures
        final(url)@ == routed(old(url)@, line@.subrange(start as int, end as int)),
{
    if start < end && chars[start] == '/' {
        if end - start == 1 {
            *url = String::from_str("index.html");
        } else {
            url.append(line.substring_char(start, end));
        }
    }
}

/// Whether a line of these characters starts with the letters GET.
fn starts_with_get(chars: &Vec<char>) -> (b: bool)
    ensures
        b == "GET"@.is_prefix_of(chars@),
{
    proof {
        reveal_strlit("GET");
    }
    if chars.len() < 3 {
        false
    } else {
        let b = chars[0] == 'G' && chars[1] == 'E' && chars[2] == 'T';
        proof {
            let head = chars@.subrange(0, 3);
            assert(head[0] == chars@[0] && head[1] == chars@[1] && head[2] == chars@[2]);
            if b {
                assert(head =~= "GET"@);
            }
        }
        b
    }
}

impl HttpRequest {
    /// Reads a request line. Every line is read as something: the method is
    /// `Get` where the line starts with GET and `Post` otherwise, and the path
    /// is gathered from the fields that start with a slash.
    pub fn new(line: String) -> (req: HttpRequest)
        ensures
            req.method == method_of(line@),
            req.url@ == url_of(line@),
    {
        let s = line.as_str();
        let chars = chars_of(s);
        let n: usize = chars.len();
        let method = if starts_with_get(&chars) {
            Method::Get
        } else {
            Method::Post
        };
        let mut url = String::from_str(".");
        let mut start: usize = 0;
        let mut i: usize = 0;
        assert(s@.skip(0) =~= s@);
        while i < n
            invariant
                n == s@.len(),
                s@ == line@,
                chars@ == s@,
                start <= i <= n,
                forall|j: int| start <= j < i ==> s@[j] != ' ',
                url_of(line@) == routed_all(url@, fields(s@.skip(start as int))),
            decreases n - i,
        {
            if chars[i] == ' ' {
                proof {
                    let rest = s@.skip(start as int);
                    lemma_field_len(rest, i - start);
                    lemma_routed_all_step(url@, rest);
                    assert(rest.take(i - start) =~= s@.subrange(start as int, i as int));
                    assert(rest.skip(i - start + 1) =~= s@.skip(i + 1));
                }
                route(&mut url, s, &chars, start, i);
                start = i + 1;
            }
            i += 1;
        }
        proof {
            let rest = s@.skip(start as int);
            lemma_field_len(rest, n - start);
            lemma_routed_all_last(url@, rest);
            assert(rest =~= s@.subrange(start as int, n as int));
        }
        route(&mut url, s, &chars, start, n);
        HttpRequest { method, url }
    }
}

} // verus!
