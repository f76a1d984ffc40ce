//! Requests: the structure, its reading from text and its writing to text.

use crate::header::{
    header_lines, header_views, is_plain_header, lemma_header_lines_push, HeaderView,
    HttpRequestHeader,
};
use crate::laws::{lemma_parsed_is_canonical, lemma_round_trip_iff_canonical};
use crate::text::{
    chars_of, find_pair, first_pair, is_blank, is_token, is_whitespace, lemma_prefix_len_bounds,
    lemma_prefix_len_is, lemma_tokens_blank, lemma_tokens_first, line_break, lines, prefix_len,
    run_end, split_line, tokens, version,
};
use crate::utf8::text_of;
use vstd::prelude::*;
use vstd::utf8::{decode_utf8, valid_utf8};

verus! {

/// What a request is.
pub struct RequestView {
    pub method: Seq<char>,
    pub path: Seq<char>,
    pub query: Seq<char>,
    pub headers: Seq<HeaderView>,
    pub body: Seq<char>,
}

/// Why bytes or text could not be read as a request.
#[derive(Debug, Clone, Copy, PartialEq, Eq)]
pub enum ParseError {
    /// The bytes are not text.
    NotText,
    /// The first line does not hold a method and a path.
    RequestLine,
    /// A line of the header block does not hold the separator of name and value.
    HeaderLine,
}

/// The first line of a request.
pub open spec fn request_line(method: Seq<char>, path: Seq<char>) -> Seq<char> {
    method + seq![' '] + path + seq![' '] + version()
}

/// The text of a request: its first line, a line break, and the lines of its
/// headers. Neither the blank line that would end the headers nor the body
/// is written; the query is not written either.
pub open spec fn serialize_request(r: RequestView) -> Seq<char> {
    request_line(r.method, r.path) + line_break() + header_lines(r.headers)
}

/// The header that a line holds: its name is what stands in front of the
/// leftmost separator, its value all that follows that separator.
pub open spec fn parse_header(line: Seq<char>) -> Option<HeaderView> {
    match first_pair(line, ':', ' ') {
        Some(i) => Some(HeaderView { name: line.take(i), value: line.skip(i + 2) }),
        None => None,
    }
}

/// The lines that hold headers: those in front of the first blank line.
pub open spec fn header_block(ls: Seq<Seq<char>>) -> Seq<Seq<char>> {
    ls.take(prefix_len(ls, |l: Seq<char>| !is_blank(l)) as int)
}

/// The request that a text holds. The first two tokens of the first line are
/// the method and the path; the lines after it, up to the first blank one,
/// are the headers. What follows the blank line is not read: query and body
/// are empty.
pub open spec fn parse_request(text: Seq<char>) -> Result<RequestView, ParseError> {
    let ls = lines(text);
    if ls.len() == 0 || tokens(ls[0]).len() < 2 {
        Err(ParseError::RequestLine)
    } else {
        let block = header_block(ls.skip(1));
        if exists|i: int| 0 <= i < block.len() && parse_header(#[trigger] block[i]) is None {
            Err(ParseError::HeaderLine)
        } else {
            Ok(
                RequestView {
                    method: tokens(ls[0])[0],
                    path: tokens(ls[0])[1],
                    query: Seq::empty(),
                    headers: block.map_values(|l: Seq<char>| parse_header(l).unwrap()),
                    body: Seq::empty(),
                },
            )
        }
    }
}

/// A request that its own text gives back: method and path are tokens, and
/// every header is plain.
pub open spec fn is_canonical(r: RequestView) -> bool {
    &&& is_token(r.method)
    &&& is_token(r.path)
    &&& forall|i: int| 0 <= i < r.headers.len() ==> is_plain_header(#[trigger] r.headers[i])
}

/// The request without what its text does not carry: query and body.
pub open spec fn without_payload(r: RequestView) -> RequestView {
    RequestView { query: Seq::empty(), body: Seq::empty(), ..r }
}

/// The request that bytes hold: they are read as UTF-8, all of them, and
/// the text as a request.
pub open spec fn parse_bytes(raw: Seq<u8>) -> Result<RequestView, ParseError> {
    if valid_utf8(raw) {
        parse_request(decode_utf8(raw))
    } else {
        Err(ParseError::NotText)
    }
}

/// Where the first two tokens of the line `chars[..end]` stand, each as the
/// positions of its first character and behind its last one; `None` where
/// the line holds fewer than two tokens.
fn leading_tokens(chars: &[char], end: usize) -> (r: Option<((usize, usize), (usize, usize))>)
    requires
        end <= chars@.len(),
    ensures
        match r {
            Some((first, second)) => {
                &&& first.0 <= first.1 <= second.0 <= second.1 <= end
                &&& tokens(chars@.subrange(0, end as int)).len() >= 2
                &&& tokens(chars@.subrange(0, end as int))[0] == chars@.subrange(
                    first.0 as int,
                    first.1 as int,
                )
                &&& tokens(chars@.subrange(0, end as int))[1] == chars@.subrange(
                    second.0 as int,
                    second.1 as int,
                )
            },
            None => tokens(chars@.subrange(0, end as int)).len() < 2,
        },
{
    let ghost line = chars@.subrange(0, end as int);
    let a = run_end(chars, 0, end, true);
    if a == end {
        proof {
            lemma_tokens_blank(line);
        }
        return None;
    }
    let b = run_end(chars, a, end, false);
    let c = run_end(chars, b, end, true);
    let ghost tail = line.skip(b as int);
    proof {
        lemma_tokens_first(line, a as int, b as int);
        assert(line.subrange(a as int, b as int) =~= chars@.subrange(a as int, b as int));
    }
    if c == end {
        proof {
            lemma_tokens_blank(tail);
        }
        return None;
    }
    let d = run_end(chars, c, end, false);
    proof {
        lemma_tokens_first(tail, c - b, d - b);
        assert(tail.subrange(c - b, d - b) =~= chars@.subrange(c as int, d as int));
    }
    Some(((a, b), (c, d)))
}

/// A request.
#[derive(Debug, PartialEq, Eq)]
pub struct HttpRequest {
    method: String,
    path: String,
    query: String,
    headers: Vec<HttpRequestHeader>,
    body: String,
}

impl View for HttpRequest {
    type V = RequestView;

    closed spec fn view(&self) -> RequestView {
        RequestView {
            method: self.method@,
            path: self.path@,
            query: self.query@,
            headers: header_views(self.headers@),
            body: self.body@,
        }
    }
}

impl HttpRequest {
    /// Builds a request from its parts, as they are: nothing is looked into, so
    /// the request need not be canonical.
    pub fn new(
        method: &str,
        path: &str,
        query: &str,
        headers: Vec<HttpRequestHeader>,
        body: &str,
    ) -> (request: Self)
        ensures
            request@ == (RequestView {
                method: method@,
                path: path@,
                query: query@,
                headers: header_views(headers@),
                body: body@,
            }),
    {
        HttpRequest {
            method: String::from_str(method),
            path: String::from_str(path),
            query: String::from_str(query),
            headers,
            body: String::from_str(body),
        }
    }

    /// The method.
    pub fn get_method(&self) -> (method: &str)
        ensures
            method@ == self@.method,
    {
        self.method.as_str()
    }

    /// The path.
    pub fn get_path(&self) -> (path: &str)
        ensures
            path@ == self@.path,
    {
        self.path.as_str()
    }

    /// The query. It is empty in every request that was read.
    pub fn get_query(&self) -> (query: &str)
        ensures
            query@ == self@.query,
    {
        self.query.as_str()
    }

    /// The headers, in their order.
    pub fn get_headers(&self) -> (headers: &Vec<HttpRequestHeader>)
        ensures
            header_views(headers@) == self@.headers,
    {
        &self.headers
    }

    /// The body. It is empty in every request that was read.
    pub fn get_body(&self) -> (body: &str)
        ensures
            body@ == self@.body,
    {
        self.body.as_str()
    }

    /// Reads a request from text. A request that was read is canonical: its
    /// method and its path are tokens, so neither is empty.
    pub fn from_string(request: &str) -> (r: Result<Self, ParseError>)
        ensures
            match r {
                Ok(req) => parse_request(request@) == Ok::<RequestView, ParseError>(req@),
                Err(e) => parse_request(request@) == Err::<RequestView, ParseError>(e),
            },
            r matches Ok(req) ==> is_canonical(req@) && req@ == without_payload(req@),
            !(r matches Err(ParseError::NotText)),
    {
        proof {
            lemma_parsed_is_canonical(request@);
        }
        let chars = chars_of(request);
        let n = chars.len();
        let ghost text = request@;
        if n == 0 {
            return Err(ParseError::RequestLine);
        }
        assert(text.skip(0) =~= text);
        let (end, next) = split_line(chars.as_slice(), 0);
        let ghost line = text.subrange(0, end as int);
        let (method_at, path_at) = match leading_tokens(chars.as_slice(), end) {
            Some(found) => found,
            None => {
                return Err(ParseError::RequestLine);
            },
        };

        let mut headers: Vec<HttpRequestHeader> = Vec::new();
        let mut pos = next;
        let ghost mut seen: Seq<Seq<char>> = Seq::empty();
        let ghost nonblank = |l: Seq<char>| !is_blank(l);
        let ghost below = lines(text).skip(1);
        assert(below =~= lines(text.skip(pos as int)));
        loop
            invariant_except_break
                below =~= seen + lines(text.skip(pos as int)),
            invariant
                n == chars@.len(),
                chars@ == text,
                text == request@,
                pos <= n,
                nonblank == |l: Seq<char>| !is_blank(l),
                below == lines(text).skip(1),
                lines(text).len() > 0,
                lines(text)[0] == line,
                tokens(line).len() >= 2,
                headers@.len() == seen.len(),
                forall|k: int|
                    0 <= k < seen.len() ==> !is_blank(#[trigger] seen[k]) && parse_header(seen[k])
                        == Some(headers@[k]@),
            ensures
                header_block(below) =~= seen,
            decreases n - pos,
        {
            if pos >= n {
                proof {
                    assert(below =~= seen);
                    lemma_prefix_len_is(below, nonblank, seen.len() as int);
                }
                break ;
            }
            let (e, after) = split_line(chars.as_slice(), pos);
            let ghost l = text.subrange(pos as int, e as int);
            assert(below =~= seen + seq![l] + lines(text.skip(after as int)));
            assert(below[seen.len() as int] == l);
            let b = run_end(chars.as_slice(), pos, e, true);
            if b == e {
                proof {
                    assert(is_blank(l));
                    lemma_prefix_len_is(below, nonblank, seen.len() as int);
                }
                break ;
            }
            proof {
                assert(!is_whitespace(l[b - pos]));
                assert(!is_blank(l));
            }
            match find_pair(chars.as_slice(), pos, e, ':', ' ') {
                None => {
                    proof {
                        lemma_prefix_len_bounds(below, nonblank);
                        let k = prefix_len(below, nonblank) as int;
                        if k <= seen.len() {
                            assert(nonblank(below[k]));
                        }
                        let block = header_block(below);
                        assert(block[seen.len() as int] == l);
                        assert(parse_header(block[seen.len() as int]) is None);
                    }
                    return Err(ParseError::HeaderLine);
                },
                Some(i) => {
                    let name = request.substring_char(pos, i);
                    let value = request.substring_char(i + 2, e);
                    headers.push(HttpRequestHeader::new(name, value));
                    proof {
                        assert(l.take(i - pos) =~= text.subrange(pos as int, i as int));
                        assert(l.skip(i - pos + 2) =~= text.subrange(i + 2, e as int));
                        seen = seen.push(l);
                    }
                },
            }
            pos = after;
        }
        let method = String::from_str(request.substring_char(method_at.0, method_at.1));
        let path = String::from_str(request.substring_char(path_at.0, path_at.1));
        proof {
            let block = header_block(below);
            assert(block.map_values(|l: Seq<char>| parse_header(l).unwrap()) =~= header_views(
                headers@,
            ));
        }
        Ok(HttpRequest { method, path, query: String::new(), headers, body: String::new() })
    }

    /// Reads a request from the bytes that a connection delivered.
    pub fn from_bytes(raw: &[u8]) -> (r: Result<Self, ParseError>)
        ensures
            match r {
                Ok(req) => parse_bytes(raw@) == Ok::<RequestView, ParseError>(req@),
                Err(e) => parse_bytes(raw@) == Err::<RequestView, ParseError>(e),
            },
            r matches Ok(req) ==> is_canonical(req@) && req@ == without_payload(req@),
            r matches Err(ParseError::NotText) <==> !valid_utf8(raw@),
    {
        match text_of(raw) {
            Some(text) => HttpRequest::from_string(text),
            None => Err(ParseError::NotText),
        }
    }

    /// Writes the request as text. Reading that text gives the request back,
    /// without its query and its body, where the request is canonical, and
    /// only there.
    pub fn to_string(&self) -> (text: String)
        ensures
            text@ == serialize_request(self@),
            is_canonical(self@) <==> parse_request(text@) == Ok::<RequestView, ParseError>(
                without_payload(self@),
            ),
    {
        proof {
            lemma_round_trip_iff_canonical(self@);
        }
        let mut text = String::from_str(self.method.as_str());
        text.append(" ");
        text.append(self.path.as_str());
        text.append(" HTTP/1.1\r\n");
        proof {
            reveal_strlit(" ");
            reveal_strlit(" HTTP/1.1\r\n");
            assert(text@ =~= request_line(self@.method, self@.path) + line_break());
            assert(header_views(self.headers@).take(0) =~= Seq::<HeaderView>::empty());
        }
        for i in 0..self.headers.len()
            invariant
                text@ == request_line(self@.method, self@.path) + line_break() + header_lines(
                    self@.headers.take(i as int),
                ),
        {
            let line = self.headers[i].to_string();
            text.append(line.as_str());
            proof {
                lemma_header_lines_push(self@.headers.take(i as int), self@.headers[i as int]);
                assert(self@.headers.take(i as int).push(self@.headers[i as int])
                    =~= self@.headers.take(i + 1));
            }
        }
        assert(self@.headers.take(self.headers@.len() as int) =~= self@.headers);
        text
    }
}

} // verus!
