use http_core::handler::{
    handle_input, handle_request, not_found_response, read_file_response, write_file_response,
    Action, HandlerError, RequestError,
};
use http_core::request::{
    extract_body, extract_headers, extract_path, extract_request_type, header_lookup,
    method_of_token, parse_request, segments_of_target, Method, ParseError,
};
use http_core::response::{dec_string, HttpResponse, ResponseBody, StatusCode};
use http_core::router::{route, Route};
use http_core::strutil::{find_str, join_from, split_str, str_eq};

#[test]
fn test_extract_path() {
    let input =
        "GET /index.html HTTP/1.1\r\nHost: localhost:4221\r\nUser-Agent: curl/7.64.1\r\n\r\n"
            .to_string();

    let path = extract_path(&input);
    assert_eq!(path, Some("/index.html"));
}

#[test]
fn test_extract_echo_string() {
    let input = "/echo/home".to_string();
    assert_eq!(
        split_str(&input, "/"),
        vec!["".to_string(), "echo".to_string(), "home".to_string()]
    );
}

#[test]
fn extract_request_type_takes_first_token() {
    let input = "GET /index.html HTTP/1.1\r\nHost: localhost:4221\r\n\r\n";
    assert_eq!(extract_request_type(input), Some("GET"));
    let post = "POST /files/a.txt HTTP/1.1\r\n\r\nhello";
    assert_eq!(extract_request_type(post), Some("POST"));
}

#[test]
fn extract_body_takes_everything_after_blank_line() {
    let input = "POST /files/a.txt HTTP/1.1\r\nHost: x\r\n\r\nhello world";
    assert_eq!(extract_body(input), Some("hello world"));
    assert_eq!(extract_body("GET / HTTP/1.1\r\nHost: x"), None);
    let two_blanks = "POST /x HTTP/1.1\r\n\r\nfirst\r\n\r\nsecond";
    assert_eq!(extract_body(two_blanks), Some("first\r\n\r\nsecond"));
}

#[test]
fn extract_headers_keeps_well_formed_lines_and_skips_others() {
    let input = "GET / HTTP/1.1\r\nHost: localhost:4221\r\nbroken line\r\nUser-Agent: curl/7.64.1\r\n\r\n";
    let headers = extract_headers(input);
    assert_eq!(
        headers,
        vec![
            ("Host".to_string(), "localhost:4221".to_string()),
            ("User-Agent".to_string(), "curl/7.64.1".to_string()),
        ]
    );
}

#[test]
fn header_lookup_is_last_write_wins() {
    let headers = vec![
        ("Host".to_string(), "one".to_string()),
        ("Host".to_string(), "two".to_string()),
    ];
    assert_eq!(header_lookup(&headers, "Host"), Some("two".to_string()));
    assert_eq!(header_lookup(&headers, "host"), None);
}

#[test]
fn segments_trim_one_leading_and_one_trailing_slash() {
    assert_eq!(segments_of_target("/"), vec!["".to_string()]);
    assert_eq!(
        segments_of_target("/echo/a/b"),
        vec!["echo".to_string(), "a".to_string(), "b".to_string()]
    );
    assert_eq!(
        segments_of_target("/files/x.txt/"),
        vec!["files".to_string(), "x.txt".to_string()]
    );
}

#[test]
fn route_echo_joins_remaining_segments() {
    let segs = vec!["echo".to_string(), "a".to_string(), "b".to_string()];
    let r = route(Method::Get, &segs);
    assert_eq!(r, Route::Echo("a/b".to_string()));
    let response = HttpResponse {
        status_code: StatusCode::Okay,
        body: Some(ResponseBody {
            content_type: "text/plain".to_string(),
            content: "a/b".to_string(),
        }),
    };
    let wire = response.to_wire_string();
    assert!(wire.contains("Content-Length: 3"));
    assert_eq!(
        wire,
        "HTTP/1.1 200 OK\r\nContent-Type: text/plain\r\nContent-Length: 3\r\n\r\na/b"
    );
}

#[test]
fn route_root_serializes_exactly() {
    let segs = vec!["".to_string()];
    assert_eq!(route(Method::Get, &segs), Route::Root);
    let response = HttpResponse { status_code: StatusCode::Okay, body: None };
    assert_eq!(response.to_wire_string(), "HTTP/1.1 200 OK\r\n\r\n");
}

#[test]
fn route_unmatched_serializes_exactly() {
    let segs = vec!["nope".to_string()];
    assert_eq!(route(Method::Get, &segs), Route::Unmatched);
    assert_eq!(
        not_found_response().to_wire_string(),
        "HTTP/1.1 404 NOT FOUND\r\n\r\n"
    );
}

#[test]
fn route_first_match_wins_over_methods() {
    let files = vec!["files".to_string(), "a.txt".to_string()];
    assert_eq!(route(Method::Get, &files), Route::FileGet("a.txt".to_string()));
    assert_eq!(route(Method::Post, &files), Route::FileSave("a.txt".to_string()));
    let ua = vec!["user-agent".to_string()];
    assert_eq!(route(Method::Get, &ua), Route::UserAgent);
    assert_eq!(route(Method::Post, &ua), Route::Unmatched);
    let echo_alone = vec!["echo".to_string()];
    assert_eq!(route(Method::Get, &echo_alone), Route::Echo("".to_string()));
}

#[test]
fn file_round_trip_is_write_once() {
    // A first write: the file does not exist yet, so the body is written
    // and the exchange answers 201.
    let input = "POST /files/foo.txt HTTP/1.1\r\nHost: x\r\n\r\nhello";
    match handle_input(input, true) {
        Ok(Action::WriteFile(path, contents)) => {
            assert_eq!(path, "foo.txt");
            assert_eq!(contents, "hello");
        }
        other => panic!("expected a file write, got {:?}", describe(&other)),
    }
    assert_eq!(
        write_file_response(false).to_wire_string(),
        "HTTP/1.1 201 Created\r\n\r\n"
    );

    // A later read hands the stored bytes back.
    let get = "GET /files/foo.txt HTTP/1.1\r\nHost: x\r\n\r\n";
    match handle_input(get, true) {
        Ok(Action::ReadFile(path)) => assert_eq!(path, "foo.txt"),
        other => panic!("expected a file read, got {:?}", describe(&other)),
    }
    let response = read_file_response(Some("hello".to_string()));
    assert_eq!(
        response.to_wire_string(),
        "HTTP/1.1 200 OK\r\nContent-Type: application/octet-stream\r\nContent-Length: 5\r\n\r\nhello"
    );

    // A second write to the same path: the file now exists and is left
    // untouched.
    assert_eq!(
        write_file_response(true).to_wire_string(),
        "HTTP/1.1 404 NOT FOUND\r\n\r\n"
    );
}

#[test]
fn file_get_missing_or_unconfigured_is_not_found() {
    // Configured directory, nonexistent file.
    assert_eq!(
        read_file_response(None).to_wire_string(),
        "HTTP/1.1 404 NOT FOUND\r\n\r\n"
    );
    // No configured directory: answered before any filesystem access.
    let get = "GET /files/anything HTTP/1.1\r\nHost: x\r\n\r\n";
    match handle_input(get, false) {
        Ok(Action::Respond(r)) => {
            assert_eq!(r.to_wire_string(), "HTTP/1.1 404 NOT FOUND\r\n\r\n")
        }
        other => panic!("expected a response, got {:?}", describe(&other)),
    }
}

#[test]
fn file_save_without_body_or_directory_is_not_found() {
    let no_body = "POST /files/foo.txt HTTP/1.1\r\nHost: x";
    match handle_input(no_body, true) {
        Ok(Action::Respond(r)) => {
            assert_eq!(r.to_wire_string(), "HTTP/1.1 404 NOT FOUND\r\n\r\n")
        }
        other => panic!("expected a response, got {:?}", describe(&other)),
    }
    let with_body = "POST /files/foo.txt HTTP/1.1\r\nHost: x\r\n\r\nhello";
    match handle_input(with_body, false) {
        Ok(Action::Respond(r)) => {
            assert_eq!(r.to_wire_string(), "HTTP/1.1 404 NOT FOUND\r\n\r\n")
        }
        other => panic!("expected a response, got {:?}", describe(&other)),
    }
}

#[test]
fn handle_input_surfaces_parse_errors() {
    assert_eq!(
        handle_input("GET /\r\n\r\n", true),
        Err(RequestError::Parse(ParseError::MalformedRequestLine))
    );
    assert_eq!(
        handle_input("PUT /x HTTP/1.1\r\n\r\n", true),
        Err(RequestError::Parse(ParseError::UnsupportedMethod))
    );
}

#[test]
fn content_length_counts_bytes_not_characters() {
    let response = HttpResponse {
        status_code: StatusCode::Okay,
        body: Some(ResponseBody {
            content_type: "text/plain".to_string(),
            content: "h\u{e9}llo".to_string(),
        }),
    };
    assert_eq!(
        response.to_wire_string(),
        "HTTP/1.1 200 OK\r\nContent-Type: text/plain\r\nContent-Length: 6\r\n\r\nh\u{e9}llo"
    );
}

#[test]
fn serialization_is_deterministic() {
    let make = || HttpResponse {
        status_code: StatusCode::Okay,
        body: Some(ResponseBody {
            content_type: "text/plain".to_string(),
            content: "abc".to_string(),
        }),
    };
    assert_eq!(make().to_wire_string(), make().to_wire_string());
}

#[test]
fn parse_request_builds_the_full_request() {
    let input = "POST /files/dir/a.txt HTTP/1.1\r\nHost: localhost\r\nUser-Agent: curl\r\n\r\nbody bytes";
    let req = parse_request(input).unwrap();
    assert_eq!(req.method, Method::Post);
    assert_eq!(req.path, vec!["files".to_string(), "dir".to_string(), "a.txt".to_string()]);
    assert_eq!(
        req.headers,
        vec![
            ("Host".to_string(), "localhost".to_string()),
            ("User-Agent".to_string(), "curl".to_string()),
        ]
    );
    assert_eq!(req.body, Some("body bytes".to_string()));
}

#[test]
fn parse_request_rejects_short_request_lines() {
    assert_eq!(
        parse_request("GET /\r\n\r\n"),
        Err(ParseError::MalformedRequestLine)
    );
    assert_eq!(parse_request(""), Err(ParseError::MalformedRequestLine));
}

#[test]
fn parse_request_rejects_unknown_methods() {
    assert_eq!(
        parse_request("PUT /files/a HTTP/1.1\r\n\r\n"),
        Err(ParseError::UnsupportedMethod)
    );
    assert_eq!(method_of_token("GET"), Some(Method::Get));
    assert_eq!(method_of_token("POST"), Some(Method::Post));
    assert_eq!(method_of_token("get"), None);
}

#[test]
fn user_agent_is_reflected_and_missing_header_fails() {
    let input = "GET /user-agent HTTP/1.1\r\nUser-Agent: foobar/1.2.3\r\n\r\n";
    match handle_input(input, false) {
        Ok(Action::Respond(r)) => assert_eq!(
            r.to_wire_string(),
            "HTTP/1.1 200 OK\r\nContent-Type: text/plain\r\nContent-Length: 12\r\n\r\nfoobar/1.2.3"
        ),
        other => panic!("expected a response, got {:?}", describe(&other)),
    }
    let bare = "GET /user-agent HTTP/1.1\r\nHost: x\r\n\r\n";
    assert_eq!(
        handle_input(bare, false),
        Err(RequestError::Handler(HandlerError::HeaderNotFound))
    );
}

#[test]
fn handle_request_matches_handle_input() {
    let input = "GET /echo/abc HTTP/1.1\r\nHost: x\r\n\r\n";
    let req = parse_request(input).unwrap();
    match handle_request(&req, false) {
        Ok(Action::Respond(r)) => assert_eq!(
            r.to_wire_string(),
            "HTTP/1.1 200 OK\r\nContent-Type: text/plain\r\nContent-Length: 3\r\n\r\nabc"
        ),
        other => panic!("expected a response, got {:?}", other),
    }
}

#[test]
fn dec_string_gives_exact_decimal_digits() {
    assert_eq!(dec_string(0), "0");
    assert_eq!(dec_string(7), "7");
    assert_eq!(dec_string(10), "10");
    assert_eq!(dec_string(104), "104");
    assert_eq!(dec_string(65536), "65536");
}

#[test]
fn string_utilities_behave_as_specified() {
    assert_eq!(find_str("abcdef", "cd"), Some(2));
    assert_eq!(find_str("abcdef", "xy"), None);
    assert_eq!(find_str("", "x"), None);
    assert!(str_eq("same", "same"));
    assert!(!str_eq("same", "sane"));
    assert_eq!(split_str("a::b::", "::"), vec!["a", "b", ""]);
    let parts = vec!["a".to_string(), "b".to_string(), "c".to_string()];
    assert_eq!(join_from(&parts, 0, "/"), "a/b/c");
    assert_eq!(join_from(&parts, 1, "/"), "b/c");
    assert_eq!(join_from(&parts, 3, "/"), "");
}

fn describe(r: &Result<Action, RequestError>) -> String {
    match r {
        Ok(Action::Respond(resp)) => format!("respond {}", resp.to_wire_string()),
        Ok(Action::ReadFile(p)) => format!("read {}", p),
        Ok(Action::WriteFile(p, _)) => format!("write {}", p),
        Err(e) => format!("error {:?}", e),
    }
}
