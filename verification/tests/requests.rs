use mini_http::header::HttpRequestHeader;
use mini_http::request::{HttpRequest, ParseError};

fn header_pairs(request: &HttpRequest) -> Vec<(String, String)> {
    let mut pairs = Vec::new();
    for header in request.get_headers() {
        pairs.push((header.get_method().to_string(), header.get_value().to_string()));
    }
    pairs
}

fn pair(name: &str, value: &str) -> (String, String) {
    (name.to_string(), value.to_string())
}

#[test]
fn parses_request_with_one_header() {
    let request =
        HttpRequest::from_string("GET /index.css HTTP/1.1\r\nHost: localhost\r\n\r\n").unwrap();
    assert_eq!(request.get_method(), "GET");
    assert_eq!(request.get_path(), "/index.css");
    assert_eq!(header_pairs(&request), vec![pair("Host", "localhost")]);
    assert_eq!(request.get_body(), "");
    assert_eq!(request.get_query(), "");
}

#[test]
fn parses_request_without_headers() {
    let request = HttpRequest::from_string("GET / HTTP/1.1\r\n\r\n").unwrap();
    assert_eq!(request.get_method(), "GET");
    assert_eq!(request.get_path(), "/");
    assert!(request.get_headers().is_empty());
}

#[test]
fn parses_request_line_alone() {
    let request = HttpRequest::from_string("DELETE /items").unwrap();
    assert_eq!(request.get_method(), "DELETE");
    assert_eq!(request.get_path(), "/items");
    assert!(request.get_headers().is_empty());
}

#[test]
fn ignores_tokens_after_the_path() {
    let request = HttpRequest::from_string("PUT /a b c d\r\n").unwrap();
    assert_eq!(request.get_method(), "PUT");
    assert_eq!(request.get_path(), "/a");
}

#[test]
fn skips_whitespace_around_the_tokens() {
    let request = HttpRequest::from_string(" \t GET \u{a0}\u{2003} /x\u{3000}HTTP/1.1 \r\n").unwrap();
    assert_eq!(request.get_method(), "GET");
    assert_eq!(request.get_path(), "/x");
}

#[test]
fn keeps_the_query_in_the_path() {
    let request = HttpRequest::from_string("GET /search?q=1 HTTP/1.1\r\n\r\n").unwrap();
    assert_eq!(request.get_path(), "/search?q=1");
    assert_eq!(request.get_query(), "");
}

#[test]
fn keeps_headers_in_order_with_duplicates() {
    let request = HttpRequest::from_string(
        "GET / HTTP/1.1\r\nAccept: a\r\nhost: one\r\nAccept: b\r\nHost: two\r\n\r\n",
    )
    .unwrap();
    assert_eq!(
        header_pairs(&request),
        vec![pair("Accept", "a"), pair("host", "one"), pair("Accept", "b"), pair("Host", "two")]
    );
}

#[test]
fn splits_a_header_at_the_first_separator_only() {
    let request =
        HttpRequest::from_string("GET / HTTP/1.1\r\nReferer: http: //a: b\r\n\r\n").unwrap();
    assert_eq!(header_pairs(&request), vec![pair("Referer", "http: //a: b")]);
}

#[test]
fn accepts_empty_name_and_empty_value() {
    let request = HttpRequest::from_string("GET / HTTP/1.1\r\n: \r\nA: \r\n: b\r\n").unwrap();
    assert_eq!(header_pairs(&request), vec![pair("", ""), pair("A", ""), pair("", "b")]);
}

#[test]
fn never_reads_past_the_blank_line() {
    let request = HttpRequest::from_string(
        "POST /create/user HTTP/1.1\r\nContent-Length: 5\r\n\r\nhello\r\nnot a header\r\n",
    )
    .unwrap();
    assert_eq!(header_pairs(&request), vec![pair("Content-Length", "5")]);
    assert_eq!(request.get_body(), "");
}

#[test]
fn takes_a_whitespace_line_for_the_blank_line() {
    let request =
        HttpRequest::from_string("GET / HTTP/1.1\r\nA: b\r\n \t\u{2028}\r\nno separator\r\n")
            .unwrap();
    assert_eq!(header_pairs(&request), vec![pair("A", "b")]);
}

#[test]
fn takes_only_carriage_return_and_line_feed_for_a_line_break() {
    let request = HttpRequest::from_string("GET / HTTP/1.1\r\nA: b\nC: d\rE: f\r\r\n").unwrap();
    assert_eq!(header_pairs(&request), vec![pair("A", "b\nC: d\rE: f\r")]);
}

#[test]
fn parses_the_zero_padded_receive_buffer() {
    let mut text = String::from("GET /register HTTP/1.1\r\nHost: localhost\r\n\r\n");
    while text.len() < 2048 {
        text.push('\0');
    }
    let request = HttpRequest::from_string(&text).unwrap();
    assert_eq!(request.get_method(), "GET");
    assert_eq!(request.get_path(), "/register");
    assert_eq!(header_pairs(&request), vec![pair("Host", "localhost")]);
}

#[test]
fn rejects_padding_that_follows_the_headers_without_a_blank_line() {
    let text = "GET / HTTP/1.1\r\nHost: localhost\r\n\0\0\0\0";
    assert_eq!(HttpRequest::from_string(text).err(), Some(ParseError::HeaderLine));
}

#[test]
fn rejects_empty_text() {
    assert_eq!(HttpRequest::from_string("").err(), Some(ParseError::RequestLine));
}

#[test]
fn rejects_blank_request_line() {
    assert_eq!(HttpRequest::from_string("\r\nHost: a\r\n").err(), Some(ParseError::RequestLine));
    assert_eq!(HttpRequest::from_string("   \r\n").err(), Some(ParseError::RequestLine));
}

#[test]
fn rejects_request_line_without_path() {
    assert_eq!(
        HttpRequest::from_string("GET\r\nHost: localhost\r\n\r\n").err(),
        Some(ParseError::RequestLine)
    );
    assert_eq!(HttpRequest::from_string("GET  \r\n\r\n").err(), Some(ParseError::RequestLine));
}

#[test]
fn does_not_look_for_the_path_on_the_next_line() {
    assert_eq!(HttpRequest::from_string("GET\r\n/ HTTP/1.1\r\n").err(), Some(ParseError::RequestLine));
}

#[test]
fn rejects_header_without_separator() {
    assert_eq!(
        HttpRequest::from_string("GET / HTTP/1.1\r\nHost:localhost\r\n\r\n").err(),
        Some(ParseError::HeaderLine)
    );
    assert_eq!(
        HttpRequest::from_string("GET / HTTP/1.1\r\nA: b\r\nHost\r\n\r\n").err(),
        Some(ParseError::HeaderLine)
    );
}

#[test]
fn reports_the_request_line_before_a_header() {
    assert_eq!(HttpRequest::from_string("GET\r\nHost\r\n\r\n").err(), Some(ParseError::RequestLine));
}

#[test]
fn reads_bytes_as_text() {
    let request = HttpRequest::from_bytes(b"GET /caf\xc3\xa9 HTTP/1.1\r\nX: \xe2\x82\xac\r\n\r\n").unwrap();
    assert_eq!(request.get_path(), "/caf\u{e9}");
    assert_eq!(header_pairs(&request), vec![pair("X", "\u{20ac}")]);
}

#[test]
fn rejects_bytes_that_are_not_text() {
    assert_eq!(
        HttpRequest::from_bytes(b"GET / HTTP/1.1\r\nX: \xff\r\n\r\n").err(),
        Some(ParseError::NotText)
    );
    assert_eq!(HttpRequest::from_bytes(b"\xc3").err(), Some(ParseError::NotText));
    assert_eq!(HttpRequest::from_bytes(b"\xed\xa0\x80 /").err(), Some(ParseError::NotText));
}

#[test]
fn reads_no_bytes_as_empty_text() {
    assert_eq!(HttpRequest::from_bytes(b"").err(), Some(ParseError::RequestLine));
}

#[test]
fn builds_a_request_from_its_parts() {
    let headers = vec![HttpRequestHeader::new("Host", "localhost")];
    let request = HttpRequest::new("POST", "/create/user", "a=1", headers, "body");
    assert_eq!(request.get_method(), "POST");
    assert_eq!(request.get_path(), "/create/user");
    assert_eq!(request.get_query(), "a=1");
    assert_eq!(header_pairs(&request), vec![pair("Host", "localhost")]);
    assert_eq!(request.get_body(), "body");
}

#[test]
fn writes_a_request_without_blank_line_query_or_body() {
    let headers =
        vec![HttpRequestHeader::new("Host", "localhost"), HttpRequestHeader::new("Accept", "*/*")];
    let request = HttpRequest::new("GET", "/index.css", "q=1", headers, "ignored");
    assert_eq!(
        request.to_string(),
        "GET /index.css HTTP/1.1\r\nHost: localhost\r\nAccept: */*\r\n"
    );
}

#[test]
fn writes_a_request_without_headers() {
    let request = HttpRequest::new("GET", "/", "", Vec::new(), "");
    assert_eq!(request.to_string(), "GET / HTTP/1.1\r\n");
}

#[test]
fn reads_back_what_it_wrote() {
    let headers = vec![
        HttpRequestHeader::new("Host", "localhost"),
        HttpRequestHeader::new("X-Odd", " spaced: value\r"),
        HttpRequestHeader::new("", ""),
        HttpRequestHeader::new("Host", "again"),
    ];
    let request = HttpRequest::new("PATCH", "/a/b?c", "query", headers, "body");
    let read = HttpRequest::from_string(&request.to_string()).unwrap();
    assert_eq!(read.get_method(), "PATCH");
    assert_eq!(read.get_path(), "/a/b?c");
    assert_eq!(header_pairs(&read), header_pairs(&request));
    assert_eq!(read.get_query(), "");
    assert_eq!(read.get_body(), "");
    assert_eq!(read.to_string(), request.to_string());
}

#[test]
fn does_not_read_back_a_method_with_whitespace() {
    let request = HttpRequest::new("GET POST", "/", "", Vec::new(), "");
    let read = HttpRequest::from_string(&request.to_string()).unwrap();
    assert_eq!(read.get_method(), "GET");
    assert_eq!(read.get_path(), "POST");
}

#[test]
fn does_not_read_back_a_header_name_with_separator() {
    let headers = vec![HttpRequestHeader::new("a: b", "c")];
    let request = HttpRequest::new("GET", "/", "", headers, "");
    let read = HttpRequest::from_string(&request.to_string()).unwrap();
    assert_eq!(header_pairs(&read), vec![pair("a", "b: c")]);
}

#[test]
fn request_header_gives_its_parts_and_its_line() {
    let header = HttpRequestHeader::new("Content-Type", "text/html");
    assert_eq!(header.get_method(), "Content-Type");
    assert_eq!(header.get_value(), "text/html");
    assert_eq!(header.to_string(), "Content-Type: text/html\r\n");
}

#[test]
fn request_header_escapes_nothing() {
    let header = HttpRequestHeader::new("a\r\nb: ", ": c\r\n");
    assert_eq!(header.to_string(), "a\r\nb: : : c\r\n\r\n");
}

fn read_with_the_standard_splitters(
    text: &str,
) -> Result<(String, String, Vec<(String, String)>), ParseError> {
    let mut lines = text.split_terminator("\r\n");
    let first = lines.next().ok_or(ParseError::RequestLine)?;
    let mut tokens = first.split_whitespace();
    let method = tokens.next().ok_or(ParseError::RequestLine)?;
    let path = tokens.next().ok_or(ParseError::RequestLine)?;
    let mut headers = Vec::new();
    for line in lines {
        if line.trim() == "" {
            break;
        }
        let (name, value) = line.split_once(": ").ok_or(ParseError::HeaderLine)?;
        headers.push(pair(name, value));
    }
    Ok((method.to_string(), path.to_string(), headers))
}

fn read_with_the_library(text: &str) -> Result<(String, String, Vec<(String, String)>), ParseError> {
    let request = HttpRequest::from_string(text)?;
    assert_eq!(request.get_query(), "");
    assert_eq!(request.get_body(), "");
    Ok((request.get_method().to_string(), request.get_path().to_string(), header_pairs(&request)))
}

fn every_text_of(alphabet: &[char], longest: usize) -> Vec<String> {
    let mut texts = vec![String::new()];
    let mut from = 0;
    for _ in 0..longest {
        let to = texts.len();
        for i in from..to {
            for &c in alphabet {
                let mut text = texts[i].clone();
                text.push(c);
                texts.push(text);
            }
        }
        from = to;
    }
    texts
}

#[test]
fn reads_every_short_text_as_the_standard_splitters_do() {
    let texts = every_text_of(&['G', ' ', ':', '\r', '\n', '\u{2003}'], 6);
    assert_eq!(texts.len(), 55987);
    for text in &texts {
        assert_eq!(
            read_with_the_library(text),
            read_with_the_standard_splitters(text),
            "{:?}",
            text
        );
    }
}

#[test]
fn reads_every_short_header_block_as_the_standard_splitters_do() {
    let texts = every_text_of(&['a', ' ', ':', '\r', '\n', '\t'], 6);
    for tail in &texts {
        let text = format!("GET /\r\n{}", tail);
        assert_eq!(
            read_with_the_library(&text),
            read_with_the_standard_splitters(&text),
            "{:?}",
            text
        );
    }
}

#[test]
fn reads_longer_texts_as_the_standard_splitters_do() {
    let pieces = [
        "GET", "/", " ", "HTTP/1.1", "\r\n", "\r", "\n", ": ", ":", "Host", "localhost", "\t",
        "\0", "\u{e9}", "\u{a0}", "\r\n\r\n", "a: b", " : ",
    ];
    let mut seed: u64 = 0x2545f4914f6cdd1d;
    for _ in 0..20000 {
        let mut text = String::new();
        seed ^= seed << 13;
        seed ^= seed >> 7;
        seed ^= seed << 17;
        let parts = 1 + (seed % 12) as usize;
        for _ in 0..parts {
            seed ^= seed << 13;
            seed ^= seed >> 7;
            seed ^= seed << 17;
            text.push_str(pieces[(seed % pieces.len() as u64) as usize]);
        }
        assert_eq!(
            read_with_the_library(&text),
            read_with_the_standard_splitters(&text),
            "{:?}",
            text
        );
    }
}
