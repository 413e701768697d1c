use std::collections::HashMap;

use http_core::parser::{HttpRequest, HttpRequestError};
use http_core::request;
use http_core::scan::{split_at_char, split_lines, split_segments, trim_str};

/// A small deterministic generator of texts over an alphabet that is rich in
/// separators.
struct Texts {
    state: u64,
}

impl Texts {
    fn next(&mut self) -> u64 {
        self.state ^= self.state << 13;
        self.state ^= self.state >> 7;
        self.state ^= self.state << 17;
        self.state
    }

    fn text(&mut self, longest: u64) -> String {
        let alphabet = [' ', ' ', ':', '\r', '\n', '\n', '/', 'a', 'B', '\t', '\u{e9}', '\u{a0}'];
        let length = self.next() % (longest + 1);
        (0..length).map(|_| alphabet[(self.next() % alphabet.len() as u64) as usize]).collect()
    }
}

/// The same grammar, written with the iterators of the standard library. An
/// empty request line has no tokens; `split` alone would give it one.
fn read(text: &str) -> Result<(String, String, String, HashMap<String, String>, Vec<String>), HttpRequestError> {
    let mut lines = text.lines();
    let request_line = lines.next().ok_or(HttpRequestError::MissingRequestLine)?;
    let mut parts = request_line.split(" ").filter(|_| !request_line.is_empty());
    let method = parts.next().ok_or(HttpRequestError::MissingMethod)?;
    let target = parts.next().ok_or(HttpRequestError::MissingPath)?;
    let version = parts.next().ok_or(HttpRequestError::MissingVersion)?;
    let mut headers = HashMap::new();
    for line in &mut lines {
        let line = line.trim();
        if line.is_empty() {
            break;
        }
        let mut header_parts = line.splitn(2, ':');
        headers.insert(
            header_parts.next().ok_or(HttpRequestError::InvalidHeader)?.trim().to_string(),
            header_parts.next().ok_or(HttpRequestError::InvalidHeader)?.trim().to_string(),
        );
    }
    let body: Vec<String> = lines.map(|line| line.to_string()).collect();
    Ok((method.to_string(), target.to_string(), version.to_string(), headers, body))
}

#[test]
fn scanning_agrees_with_the_standard_library_on_many_texts() {
    let mut texts = Texts { state: 0x2545F4914F6CDD1D };
    for _ in 0..20000 {
        let text = texts.text(12);
        assert_eq!(split_lines(&text), text.lines().collect::<Vec<&str>>(), "{:?}", text);
        assert_eq!(split_segments(&text, '/'), text.split_inclusive('/').collect::<Vec<&str>>(), "{:?}", text);
        assert_eq!(trim_str(&text), text.trim(), "{:?}", text);
        assert_eq!(split_at_char(&text, ':'), text.split_once(':'), "{:?}", text);
    }
}

#[test]
fn parsing_agrees_with_the_standard_library_on_many_texts() {
    let mut texts = Texts { state: 0x9E3779B97F4A7C15 };
    let mut accepted = 0;
    for round in 0..20000 {
        let mut text = texts.text(30);
        if round % 2 == 0 {
            text = format!("GET /a{} HTTP/1.1\r\n{}", texts.text(3), text);
        }
        let expected = read(&text);
        match (HttpRequest::parse(&text), &expected) {
            (Ok(parsed), Ok((method, target, version, headers, body))) => {
                accepted += 1;
                assert_eq!(&parsed.method, method, "{:?}", text);
                assert_eq!(&parsed.target, target, "{:?}", text);
                assert_eq!(&parsed.version, version, "{:?}", text);
                assert_eq!(parsed.headers.len(), headers.len(), "{:?}", text);
                for (name, value) in headers {
                    assert_eq!(parsed.headers.get(name), Some(value), "{:?}", text);
                }
                assert_eq!(parsed.body, body.concat(), "{:?}", text);
            }
            (Err(error), Err(expected)) => assert_eq!(error, *expected, "{:?}", text),
            (got, _) => panic!("{:?}: {:?} but expected {:?}", text, got, expected),
        }
        match &expected {
            Ok((method, target, version, headers, body)) => {
                let parsed = request::HttpRequest::from(&text).unwrap();
                assert_eq!(parsed.method, method, "{:?}", text);
                assert_eq!(parsed.uri, target.split_inclusive("/").collect::<Vec<&str>>(), "{:?}", text);
                assert_eq!(parsed.version, version, "{:?}", text);
                assert_eq!(parsed.headers.len(), headers.len(), "{:?}", text);
                for (name, value) in headers {
                    assert_eq!(parsed.headers.get(name), Some(value), "{:?}", text);
                }
                assert_eq!(parsed.body, body.first().map_or("", |line| line.as_str()), "{:?}", text);
            }
            Err(expected) => {
                assert_eq!(request::HttpRequest::from(&text).unwrap_err(), *expected, "{:?}", text);
            }
        }
    }
    assert!(accepted > 1000);
    assert_eq!(read("\r\nHost: x\r\n\r\n").unwrap_err(), HttpRequestError::MissingMethod);
}
