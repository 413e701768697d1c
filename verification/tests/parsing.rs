use http_core::headers::Headers;
use http_core::parser;
use http_core::request;

fn sample_headers() -> Headers {
    let mut headers = Headers::new();
    headers.insert("User-Agent".to_string(), "curl/7.64.1".to_string());
    headers.insert("Host".to_string(), "localhost:4221".to_string());
    headers.insert("Accept".to_string(), "*/*".to_string());
    headers
}

#[test]
fn parser_test1() {
    let desired_request = parser::HttpRequest {
        method: "GET".to_string(),
        target: "/index.html".to_string(),
        version: "HTTP/1.1".to_string(),
        headers: sample_headers(),
        body: "body".to_string(),
    };

    let request = "GET /index.html HTTP/1.1\r\nHost: localhost:4221\r\nUser-Agent: curl/7.64.1\r\nAccept: */*\r\n\r\nbody";
    let parsed_request = parser::HttpRequest::parse(request);
    match parsed_request {
        Ok(request) => {
            println!("{:#?}", request);
            assert_eq!(request, desired_request);
        }
        Err(e) => panic!("Failed to parse HTTP request: {:?}", e),
    }
}

#[test]
fn request_test1() {
    let desired_request = request::HttpRequest {
        method: "GET",
        uri: vec!["/", "index.html"],
        version: "HTTP/1.1",
        headers: sample_headers(),
        body: "body",
    };

    let request = "GET /index.html HTTP/1.1\r\nHost: localhost:4221\r\nUser-Agent: curl/7.64.1\r\nAccept: */*\r\n\r\nbody";
    let parsed_request = request::HttpRequest::from(request);
    match parsed_request {
        Ok(request) => {
            println!("{:#?}", request);
            assert_eq!(request, desired_request);
        }
        Err(e) => panic!("Failed to parse HTTP request: {:?}", e),
    }
}

#[test]
fn test2() {
    let desired_request = request::HttpRequest {
        method: "GET",
        uri: vec!["/", "books/", "abab"],
        version: "HTTP/1.1",
        headers: sample_headers(),
        body: "body",
    };

    let request = "GET /books/abab HTTP/1.1\r\nHost: localhost:4221\r\nUser-Agent: curl/7.64.1\r\nAccept: */*\r\n\r\nbody";
    let parsed_request = request::HttpRequest::from(request);
    match parsed_request {
        Ok(request) => {
            println!("{:#?}", request);
            assert_eq!(request, desired_request);
        }
        Err(e) => panic!("Failed to parse HTTP request: {:?}", e),
    }
}

#[test]
fn parse_empty_text_has_no_request_line() {
    assert_eq!(parser::HttpRequest::parse("").unwrap_err(), parser::HttpRequestError::MissingRequestLine);
    assert_eq!(request::HttpRequest::from("").unwrap_err(), request::HttpRequestError::MissingRequestLine);
}

#[test]
fn parse_request_line_without_target() {
    assert_eq!(parser::HttpRequest::parse("GET").unwrap_err(), parser::HttpRequestError::MissingPath);
    assert_eq!(parser::HttpRequest::parse("GET\r\nHost: x\r\n\r\n").unwrap_err(), parser::HttpRequestError::MissingPath);
    assert_eq!(request::HttpRequest::from("GET").unwrap_err(), request::HttpRequestError::MissingPath);
}

#[test]
fn parse_empty_request_line_lacks_its_method() {
    assert_eq!(parser::HttpRequest::parse("\r\n").unwrap_err(), parser::HttpRequestError::MissingMethod);
    assert_eq!(parser::HttpRequest::parse("\r\nHost: x\r\n\r\n").unwrap_err(), parser::HttpRequestError::MissingMethod);
    assert_eq!(parser::HttpRequest::parse("\n\nGET / HTTP/1.1").unwrap_err(), parser::HttpRequestError::MissingMethod);
    assert_eq!(request::HttpRequest::from("\r\nHost: x\r\n\r\n").unwrap_err(), request::HttpRequestError::MissingMethod);
    // A line that holds only a carriage return is not empty.
    assert_eq!(parser::HttpRequest::parse("\r").unwrap_err(), parser::HttpRequestError::MissingPath);
}

#[test]
fn parse_request_line_that_starts_with_a_space_has_an_empty_method() {
    let parsed = parser::HttpRequest::parse(" / HTTP/1.1\r\n\r\n").unwrap();
    assert_eq!(parsed.method, "");
    assert_eq!(parsed.target, "/");
    assert_eq!(parsed.version, "HTTP/1.1");
    assert_eq!(parser::HttpRequest::parse(" /").unwrap_err(), parser::HttpRequestError::MissingVersion);
}

#[test]
fn parse_request_line_without_version() {
    assert_eq!(parser::HttpRequest::parse("GET /").unwrap_err(), parser::HttpRequestError::MissingVersion);
    assert_eq!(parser::HttpRequest::parse("GET /index.html\r\n\r\n").unwrap_err(), parser::HttpRequestError::MissingVersion);
    // A single space encloses two empty tokens: method and target.
    assert_eq!(parser::HttpRequest::parse(" ").unwrap_err(), parser::HttpRequestError::MissingVersion);
    assert_eq!(request::HttpRequest::from("GET /").unwrap_err(), request::HttpRequestError::MissingVersion);
}

#[test]
fn parse_header_without_colon() {
    let text = "GET / HTTP/1.1\r\nHost localhost\r\n\r\n";
    assert_eq!(parser::HttpRequest::parse(text).unwrap_err(), parser::HttpRequestError::InvalidHeader);
    assert_eq!(request::HttpRequest::from(text).unwrap_err(), request::HttpRequestError::InvalidHeader);
    // A valid header before it does not help.
    let text = "GET / HTTP/1.1\r\nHost: x\r\nbroken\r\n\r\n";
    assert_eq!(parser::HttpRequest::parse(text).unwrap_err(), parser::HttpRequestError::InvalidHeader);
}

#[test]
fn parse_request_line_is_judged_before_headers() {
    let text = "GET /\r\nbroken\r\n\r\n";
    assert_eq!(parser::HttpRequest::parse(text).unwrap_err(), parser::HttpRequestError::MissingVersion);
}

#[test]
fn parse_line_after_blank_line_is_not_a_header() {
    let parsed = parser::HttpRequest::parse("GET / HTTP/1.1\r\n\r\nno colon here").unwrap();
    assert_eq!(parsed.headers.len(), 0);
    assert_eq!(parsed.body, "no colon here");
}

#[test]
fn parse_without_headers_or_body() {
    let parsed = parser::HttpRequest::parse("GET / HTTP/1.1").unwrap();
    assert_eq!(parsed.method, "GET");
    assert_eq!(parsed.target, "/");
    assert_eq!(parsed.version, "HTTP/1.1");
    assert_eq!(parsed.headers, Headers::new());
    assert_eq!(parsed.body, "");
    let parsed = parser::HttpRequest::parse("GET / HTTP/1.1\r\n\r\n").unwrap();
    assert_eq!(parsed.version, "HTTP/1.1");
    assert_eq!(parsed.body, "");
}

#[test]
fn parse_without_blank_line_has_no_body() {
    let parsed = parser::HttpRequest::parse("GET / HTTP/1.1\r\nHost: x").unwrap();
    assert_eq!(parsed.headers.get("Host"), Some(&"x".to_string()));
    assert_eq!(parsed.body, "");
}

#[test]
fn parse_accepts_any_method_and_version() {
    let parsed = parser::HttpRequest::parse("BREW /pot HTCPCP/1.0\n\n").unwrap();
    assert_eq!(parsed.method, "BREW");
    assert_eq!(parsed.target, "/pot");
    assert_eq!(parsed.version, "HTCPCP/1.0");
}

#[test]
fn parse_ignores_tokens_after_the_version() {
    let parsed = parser::HttpRequest::parse("GET / HTTP/1.1 extra tokens").unwrap();
    assert_eq!(parsed.version, "HTTP/1.1");
}

#[test]
fn parse_splits_on_single_spaces() {
    let parsed = parser::HttpRequest::parse("GET  / HTTP/1.1").unwrap();
    assert_eq!(parsed.method, "GET");
    assert_eq!(parsed.target, "");
    assert_eq!(parsed.version, "/");
}

#[test]
fn parse_trims_header_names_and_values() {
    let parsed = parser::HttpRequest::parse("GET / HTTP/1.1\r\n  Name \t:  some value  \r\nEmpty:\r\n\r\n").unwrap();
    assert_eq!(parsed.headers.get("Name"), Some(&"some value".to_string()));
    assert_eq!(parsed.headers.get("Empty"), Some(&"".to_string()));
    assert_eq!(parsed.headers.len(), 2);
}

#[test]
fn parse_header_value_keeps_later_colons() {
    let parsed = parser::HttpRequest::parse("GET / HTTP/1.1\r\nHost: localhost:4221\r\n\r\n").unwrap();
    assert_eq!(parsed.headers.get("Host"), Some(&"localhost:4221".to_string()));
}

#[test]
fn parse_header_names_are_case_sensitive() {
    let parsed = parser::HttpRequest::parse("GET / HTTP/1.1\r\nhost: a\r\nHost: b\r\n\r\n").unwrap();
    assert_eq!(parsed.headers.get("host"), Some(&"a".to_string()));
    assert_eq!(parsed.headers.get("Host"), Some(&"b".to_string()));
    assert_eq!(parsed.headers.get("HOST"), None);
}

#[test]
fn parse_last_header_of_a_name_wins() {
    let parsed = parser::HttpRequest::parse("GET / HTTP/1.1\r\nA: 1\r\nB: 2\r\nA: 3\r\n\r\n").unwrap();
    assert_eq!(parsed.headers.get("A"), Some(&"3".to_string()));
    assert_eq!(parsed.headers.get("B"), Some(&"2".to_string()));
    assert_eq!(parsed.headers.len(), 2);
}

#[test]
fn parse_whitespace_line_ends_the_headers() {
    let parsed = parser::HttpRequest::parse("GET / HTTP/1.1\r\nA: 1\r\n \t \r\nB: 2").unwrap();
    assert_eq!(parsed.headers.get("A"), Some(&"1".to_string()));
    assert_eq!(parsed.headers.get("B"), None);
    assert_eq!(parsed.body, "B: 2");
}

#[test]
fn parse_joins_the_lines_of_the_body() {
    let parsed = parser::HttpRequest::parse("POST / HTTP/1.1\r\n\r\nfirst\r\nsecond\nthird\r\n").unwrap();
    assert_eq!(parsed.body, "firstsecondthird");
}

#[test]
fn from_takes_the_line_after_the_blank_line_as_body() {
    let text = "POST / HTTP/1.1\r\nA: 1\r\n\r\nonly line\r\n";
    let parsed = request::HttpRequest::from(text).unwrap();
    assert_eq!(parsed.body, "only line");
    let text = "POST / HTTP/1.1\r\nA: 1\r\n\r\n";
    assert_eq!(request::HttpRequest::from(text).unwrap().body, "");
}

#[test]
fn from_keeps_only_the_first_line_of_a_longer_body() {
    let parsed = request::HttpRequest::from("POST /echo/abc HTTP/1.1\r\n\r\nline1\r\nline2").unwrap();
    assert_eq!(parsed.body, "line1");
    assert_eq!(parsed.uri, vec!["/", "echo/", "abc"]);
    let parsed = request::HttpRequest::from("POST / HTTP/1.1\r\n\r\n\r\nsecond\r\nthird").unwrap();
    assert_eq!(parsed.body, "");
    // A defect is reported whatever the body.
    assert_eq!(
        request::HttpRequest::from("POST /\r\n\r\nfirst\r\nsecond").unwrap_err(),
        request::HttpRequestError::MissingVersion
    );
}

#[test]
fn from_cuts_the_target_into_segments() {
    let uri = |text: &'static str| request::HttpRequest::from(text).unwrap().uri;
    assert_eq!(uri("GET / HTTP/1.1"), vec!["/"]);
    assert_eq!(uri("GET /echo/abc HTTP/1.1"), vec!["/", "echo/", "abc"]);
    assert_eq!(uri("GET /echo/ HTTP/1.1"), vec!["/", "echo/"]);
    assert_eq!(uri("GET /a//b HTTP/1.1"), vec!["/", "a/", "/", "b"]);
    assert_eq!(uri("GET index.html HTTP/1.1"), vec!["index.html"]);
    assert_eq!(uri("GET  HTTP/1.1 x"), Vec::<&str>::new());
}

#[test]
fn parse_round_trips_a_rendered_request() {
    let fields = [("Host", "example.org"), ("X-Empty", ""), ("Accept", "text/html: or, anything")];
    let mut text = String::from("OPTIONS /a/b?c=d HTTP/1.0\r\n");
    let mut expected = Headers::new();
    for (name, value) in fields {
        text.push_str(&format!("{}: {}\r\n", name, value));
        expected.insert(name.to_string(), value.to_string());
    }
    text.push_str("\r\n");
    let parsed = parser::HttpRequest::parse(&text).unwrap();
    assert_eq!(parsed.method, "OPTIONS");
    assert_eq!(parsed.target, "/a/b?c=d");
    assert_eq!(parsed.version, "HTTP/1.0");
    assert_eq!(parsed.headers, expected);
    assert_eq!(parsed.body, "");
}
