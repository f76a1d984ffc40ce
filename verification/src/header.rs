//! Headers: ordered pairs of a name and a value, on requests and on responses.

use crate::text::{has_pair, join_lines, lemma_join_lines_push, line_break, separator};
use vstd::prelude::*;

verus! {

/// What a header is: its name and its value, both arbitrary text.
pub struct HeaderView {
    pub name: Seq<char>,
    pub value: Seq<char>,
}

/// What stands for a header in a message: the name, a colon and a space,
/// the value. Nothing in the name or the value is escaped.
pub open spec fn header_text(h: HeaderView) -> Seq<char> {
    h.name + separator() + h.value
}

/// The line that a header takes in a message, with the line break that
/// closes it.
pub open spec fn header_line(h: HeaderView) -> Seq<char> {
    header_text(h) + line_break()
}

/// A header that its own line gives back: the name holds no separator, and
/// neither the name nor the value holds a line break.
pub open spec fn is_plain_header(h: HeaderView) -> bool {
    &&& !has_pair(h.name, ':', ' ')
    &&& !has_pair(h.name, '\r', '\n')
    &&& !has_pair(h.value, '\r', '\n')
}

/// The lines of a sequence of headers, one after the other, in order.
pub open spec fn header_lines(headers: Seq<HeaderView>) -> Seq<char> {
    join_lines(headers.map_values(|h: HeaderView| header_text(h)))
}

/// Appending one header appends its line.
pub proof fn lemma_header_lines_push(headers: Seq<HeaderView>, h: HeaderView)
    ensures
        header_lines(headers.push(h)) == header_lines(headers) + header_line(h),
{
    let f = |h: HeaderView| header_text(h);
    assert(headers.push(h).map_values(f) =~= headers.map_values(f).push(header_text(h)));
    lemma_join_lines_push(headers.map_values(f), header_text(h));
}

/// What a sequence of headers holds, item by item.
pub open spec fn header_views<H: View<V = HeaderView>>(headers: Seq<H>) -> Seq<HeaderView> {
    headers.map_values(|h: H| h@)
}

/// A header of a request.
#[derive(Debug, PartialEq, Eq)]
pub struct HttpRequestHeader {
    method: String,
    value: String,
}

impl View for HttpRequestHeader {
    type V = HeaderView;

    closed spec fn view(&self) -> HeaderView {
        HeaderView { name: self.method@, value: self.value@ }
    }
}

impl HttpRequestHeader {
    /// A header with this name and this value.
    pub fn new(method: &str, value: &str) -> (header: Self)
        ensures
            header@ == (HeaderView { name: method@, value: value@ }),
    {
        HttpRequestHeader { method: String::from_str(method), value: String::from_str(value) }
    }

    /// The header's name.
    pub fn get_method(&self) -> (name: &str)
        ensures
            name@ == self@.name,
    {
        self.method.as_str()
    }

    /// The header's value.
    pub fn get_value(&self) -> (value: &str)
        ensures
            value@ == self@.value,
    {
        self.value.as_str()
    }

    /// The header's line, with its line break.
    pub fn to_string(&self) -> (line: String)
        ensures
            line@ == header_line(self@),
    {
        write_header_line(self.method.as_str(), self.value.as_str())
    }
}

/// A header of a response.
#[derive(Debug, PartialEq, Eq)]
pub struct HttpResponseHeader {
    method: String,
    value: String,
}

impl View for HttpResponseHeader {
    type V = HeaderView;

    closed spec fn view(&self) -> HeaderView {
        HeaderView { name: self.method@, value: self.value@ }
    }
}

impl HttpResponseHeader {
    /// A header with this name and this value.
    pub fn new(method: &str, value: &str) -> (header: Self)
        ensures
            header@ == (HeaderView { name: method@, value: value@ }),
    {
        HttpResponseHeader { method: String::from_str(method), value: String::from_str(value) }
    }

    /// The header's name.
    pub fn get_method(&self) -> (name: &str)
        ensures
            name@ == self@.name,
    {
        self.method.as_str()
    }

    /// The header's value.
    pub fn get_value(&self) -> (value: &str)
        ensures
            value@ == self@.value,
    {
        self.value.as_str()
    }

    /// The header's line, with its line break.
    pub fn to_string(&self) -> (line: String)
        ensures
            line@ == header_line(self@),
    {
        write_header_line(self.method.as_str(), self.value.as_str())
    }
}

/// Writes the line of a header.
fn write_header_line(name: &str, value: &str) -> (line: String)
    ensures
        line@ == header_line(HeaderView { name: name@, value: value@ }),
{
    let mut line = String::from_str(name);
    line.append(": ");
    line.append(value);
    line.append("\r\n");
    proof {
        reveal_strlit(": ");
        reveal_strlit("\r\n");
    }
    line
}

} // verus!
