//! Responses: the structure and its writing to text and to bytes.

use crate::header::{
    header_lines, header_views, lemma_header_lines_push, HeaderView, HttpResponseHeader,
};
use crate::text::{line_break, version};
use vstd::prelude::*;
use vstd::utf8::encode_utf8;

verus! {

/// What a response is.
pub struct ResponseView {
    pub status_code: Seq<char>,
    pub status_message: Seq<char>,
    pub headers: Seq<HeaderView>,
    pub body: Seq<char>,
}

/// The first line of a response.
pub open spec fn status_line(status_code: Seq<char>, status_message: Seq<char>) -> Seq<char> {
    version() + seq![' '] + status_code + seq![' '] + status_message
}

/// The text of a response: its first line, a line break, the lines of its
/// headers in order, a blank line, and the body as it is. No header is added.
pub open spec fn serialize_response(r: ResponseView) -> Seq<char> {
    status_line(r.status_code, r.status_message) + line_break() + header_lines(r.headers)
        + line_break() + r.body
}

/// The bytes of a response: its text in UTF-8.
pub open spec fn response_bytes(r: ResponseView) -> Seq<u8> {
    encode_utf8(serialize_response(r))
}

/// A response.
#[derive(Debug, PartialEq, Eq)]
pub struct HttpResponse {
    status_code: String,
    status_message: String,
    headers: Vec<HttpResponseHeader>,
    body: String,
}

impl View for HttpResponse {
    type V = ResponseView;

    closed spec fn view(&self) -> ResponseView {
        ResponseView {
            status_code: self.status_code@,
            status_message: self.status_message@,
            headers: header_views(self.headers@),
            body: self.body@,
        }
    }
}

impl HttpResponse {
    /// Builds a response from its parts, as they are.
    pub fn new(
        status_code: &str,
        status_message: &str,
        headers: Vec<HttpResponseHeader>,
        body: &str,
    ) -> (response: Self)
        ensures
            response@ == (ResponseView {
                status_code: status_code@,
                status_message: status_message@,
                headers: header_views(headers@),
                body: body@,
            }),
    {
        HttpResponse {
            status_code: String::from_str(status_code),
            status_message: String::from_str(status_message),
            headers,
            body: String::from_str(body),
        }
    }

    /// The status code.
    pub fn get_status_code(&self) -> (status_code: &str)
        ensures
            status_code@ == self@.status_code,
    {
        self.status_code.as_str()
    }

    /// The status message.
    pub fn get_status_message(&self) -> (status_message: &str)
        ensures
            status_message@ == self@.status_message,
    {
        self.status_message.as_str()
    }

    /// The headers, in their order.
    pub fn get_headers(&self) -> (headers: &Vec<HttpResponseHeader>)
        ensures
            header_views(headers@) == self@.headers,
    {
        &self.headers
    }

    /// The body.
    pub fn get_body(&self) -> (body: &str)
        ensures
            body@ == self@.body,
    {
        self.body.as_str()
    }

    /// Writes the response as text.
    pub fn to_string(&self) -> (text: String)
        ensures
            text@ == serialize_response(self@),
    {
        let mut text = String::from_str("HTTP/1.1 ");
        text.append(self.status_code.as_str());
        text.append(" ");
        text.append(self.status_message.as_str());
        text.append("\r\n");
        let ghost head = status_line(self@.status_code, self@.status_message) + line_break();
        proof {
            reveal_strlit("HTTP/1.1 ");
            reveal_strlit(" ");
            reveal_strlit("\r\n");
        }
        for i in 0..self.headers.len()
            invariant
                head == status_line(self@.status_code, self@.status_message) + line_break(),
                text@ == head + header_lines(self@.headers.take(i as int)),
        {
            let line = self.headers[i].to_string();
            text.append(line.as_str());
            proof {
                lemma_header_lines_push(self@.headers.take(i as int), self@.headers[i as int]);
                assert(self@.headers.take(i as int).push(self@.headers[i as int])
                    =~= self@.headers.take(i + 1));
            }
        }
        assert(self@.headers.take(self.headers@.len() as int) =~= self@.headers);
        text.append("\r\n");
        text.append(self.body.as_str());
        text
    }

    /// Writes the response as the bytes that go over the wire.
    pub fn to_bytes(&self) -> (bytes: Vec<u8>)
        ensures
            bytes@ == response_bytes(self@),
    {
        self.to_string().as_str().as_bytes_vec()
    }
}

} // verus!
