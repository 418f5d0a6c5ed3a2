use static_web_server::connection::{
    decide_after_read, on_inspected, on_read, on_request_line, Action, ReadOutcome, Target,
    DEFAULT_FILE, ERROR_PAGE,
};
use static_web_server::parse_request;
use static_web_server::request::{is_space, word_bounds};
use static_web_server::response::{decimal_string, error_response, file_response_head, Status};
use static_web_server::server::POOL_SIZE;
use static_web_server::text::chars_of;
use static_web_server::WebServer;

fn head_of(action: Action) -> String {
    match action {
        Action::SendFile(head) => head,
        other => panic!("no file is sent: {:?}", other),
    }
}

fn response_of(action: Action) -> String {
    match action {
        Action::SendError(response) => response,
        other => panic!("no error is sent: {:?}", other),
    }
}

#[test]
fn test_file_served_correctly() {
    let line = "GET /home.html HTTP/1.1";
    assert_eq!(on_request_line(Some(line)), Action::Inspect("home.html".to_string()));
    assert_eq!(on_inspected(false), Action::Read(Target::Requested));
    let response = head_of(on_read(Target::Requested, "./static/home.html", ReadOutcome::Found(120)));
    assert!(response.contains("HTTP/1.1 200 OK"));
    assert!(response.contains("Content-Type: text/html"));
}

#[test]
fn test_file_not_found() {
    let line = "GET /notfound.html HTTP/1.1";
    assert_eq!(on_request_line(Some(line)), Action::Inspect("notfound.html".to_string()));
    assert_eq!(
        on_read(Target::Requested, "./static/notfound.html", ReadOutcome::NotFound),
        Action::Read(Target::ErrorPage)
    );
    let response = response_of(on_read(Target::ErrorPage, "./static/404.html", ReadOutcome::NotFound));
    assert!(response.contains("HTTP/1.1 404 Not Found"));
}

#[test]
fn test_404_error_page_served() {
    assert_eq!(
        on_read(Target::Requested, "./static/notfound.html", ReadOutcome::NotFound),
        Action::Read(Target::ErrorPage)
    );
    let response = head_of(on_read(Target::ErrorPage, "./static/404.html", ReadOutcome::Found(64)));
    assert!(response.contains("HTTP/1.1 404 Not Found"));
    assert!(response.contains("Content-Type: text/html"));
}

#[test]
fn test_invalid_request() {
    let response = response_of(on_request_line(Some("INVALID REQUEST")));
    assert!(response.contains("HTTP/1.1 400 Bad Request"));
    assert_eq!(
        response,
        "HTTP/1.1 400 Bad Request\r\nContent-Type: text/plain\r\nContent-Length: 21\r\n\r\nInvalid HTTP request."
    );
    assert_eq!(response_of(on_request_line(None)), response);
}

#[test]
fn parse_request_accepts_get_with_three_words() {
    assert_eq!(parse_request("GET /index.html HTTP/1.1"), Some("index.html".to_string()));
    assert_eq!(parse_request("GET / HTTP/1.1"), Some(String::new()));
    assert_eq!(parse_request("GET ///a//b/ HTTP/1.1"), Some("a//b/".to_string()));
    assert_eq!(parse_request("  GET\t\tcss/site.css \u{3000} HTTP/1.0 \r\n"), Some("css/site.css".to_string()));
    assert_eq!(parse_request("GET /caf\u{e9}/\u{1F980}.png x"), Some("caf\u{e9}/\u{1F980}.png".to_string()));
}

#[test]
fn parse_request_refuses_everything_else() {
    assert_eq!(parse_request(""), None);
    assert_eq!(parse_request("   "), None);
    assert_eq!(parse_request("GET /index.html"), None);
    assert_eq!(parse_request("GET /index.html HTTP/1.1 extra"), None);
    assert_eq!(parse_request("POST /index.html HTTP/1.1"), None);
    assert_eq!(parse_request("get /index.html HTTP/1.1"), None);
    assert_eq!(parse_request("GETS /index.html HTTP/1.1"), None);
    assert_eq!(parse_request("GE /index.html HTTP/1.1"), None);
    assert_eq!(parse_request("INVALID REQUEST\r\n"), None);
}

#[test]
fn parse_request_agrees_with_split_whitespace() {
    let lines: Vec<&str> = vec![
        "GET /a HTTP/1.1",
        "GET\u{a0}/a\u{2003}HTTP/1.1",
        "GET\u{200b}/a HTTP/1.1",
        "GET /a\u{85}b c",
        "\u{1680}GET //x\u{2028}y\u{2029}",
        "GET  /  /",
        "a b c d",
    ];
    for line in lines {
        let parts: Vec<&str> = line.split_whitespace().collect();
        let expected = if parts.len() == 3 && parts[0] == "GET" {
            Some(parts[1].trim_start_matches('/').to_string())
        } else {
            None
        };
        assert_eq!(parse_request(line), expected);
    }
}

#[test]
fn word_bounds_count_characters() {
    assert_eq!(word_bounds(" ab  c\u{e9}d "), vec![(1, 3), (5, 8)]);
    assert_eq!(word_bounds(""), Vec::<(usize, usize)>::new());
    assert_eq!(word_bounds("x"), vec![(0, 1)]);
}

#[test]
fn is_space_is_unicode_white_space() {
    let mut code: u32 = 0;
    while code <= 0x10FFFF {
        if let Some(c) = char::from_u32(code) {
            assert_eq!(is_space(c), c.is_whitespace());
        }
        code += 1;
    }
}

#[test]
fn decimal_string_writes_numbers() {
    assert_eq!(decimal_string(0), "0");
    assert_eq!(decimal_string(7), "7");
    assert_eq!(decimal_string(10), "10");
    assert_eq!(decimal_string(1234567890), "1234567890");
    assert_eq!(decimal_string(usize::MAX), usize::MAX.to_string());
    let mut n: usize = 0;
    while n < 2000 {
        assert_eq!(decimal_string(n), n.to_string());
        n += 1;
    }
}

#[test]
fn file_response_head_is_exact() {
    assert_eq!(
        file_response_head(Status::Success, "text/html", 1024),
        "HTTP/1.1 200 OK\r\nContent-Type: text/html\r\nContent-Length: 1024\r\n\r\n"
    );
    assert_eq!(
        file_response_head(Status::NotFound, "image/png", 0),
        "HTTP/1.1 404 Not Found\r\nContent-Type: image/png\r\nContent-Length: 0\r\n\r\n"
    );
}

#[test]
fn error_response_counts_bytes() {
    assert_eq!(
        error_response(Status::InternalServerError, "Server error."),
        "HTTP/1.1 500 Internal Server Error\r\nContent-Type: text/plain\r\nContent-Length: 13\r\n\r\nServer error."
    );
    assert_eq!(
        error_response(Status::BadRequest, "caf\u{e9}"),
        "HTTP/1.1 400 Bad Request\r\nContent-Type: text/plain\r\nContent-Length: 5\r\n\r\ncaf\u{e9}"
    );
    assert_eq!(
        error_response(Status::NotFound, ""),
        "HTTP/1.1 404 Not Found\r\nContent-Type: text/plain\r\nContent-Length: 0\r\n\r\n"
    );
}

#[test]
fn status_texts() {
    assert_eq!(Status::Success.text(), "200 OK");
    assert_eq!(Status::BadRequest.text(), "400 Bad Request");
    assert_eq!(Status::NotFound.text(), "404 Not Found");
    assert_eq!(Status::InternalServerError.text(), "500 Internal Server Error");
}

#[test]
fn directory_is_answered_with_default_file() {
    assert_eq!(on_request_line(Some("GET / HTTP/1.1")), Action::Inspect(String::new()));
    assert_eq!(on_inspected(true), Action::Read(Target::DefaultFile));
    assert_eq!(DEFAULT_FILE, "home.html");
    assert_eq!(ERROR_PAGE, "404.html");
    assert_eq!(
        on_read(Target::DefaultFile, "./static/home.html", ReadOutcome::Found(5)),
        Action::SendFile(
            "HTTP/1.1 200 OK\r\nContent-Type: text/html\r\nContent-Length: 5\r\n\r\n".to_string()
        )
    );
    let expected = "HTTP/1.1 404 Not Found\r\nContent-Type: text/plain\r\nContent-Length: 23\r\n\r\nDefault file not found.";
    assert_eq!(
        on_read(Target::DefaultFile, "./static/home.html", ReadOutcome::NotFound),
        Action::SendError(expected.to_string())
    );
    assert_eq!(
        on_read(Target::DefaultFile, "./static/home.html", ReadOutcome::Failed),
        Action::SendError(expected.to_string())
    );
}

#[test]
fn unreadable_file_is_a_server_error() {
    assert_eq!(
        on_read(Target::Requested, "./static/a.txt", ReadOutcome::Failed),
        Action::SendError(
            "HTTP/1.1 500 Internal Server Error\r\nContent-Type: text/plain\r\nContent-Length: 13\r\n\r\nServer error."
                .to_string()
        )
    );
}

#[test]
fn missing_error_page_is_a_plain_404() {
    let expected = "HTTP/1.1 404 Not Found\r\nContent-Type: text/plain\r\nContent-Length: 15\r\n\r\nFile not found.";
    assert_eq!(
        on_read(Target::ErrorPage, "./static/404.html", ReadOutcome::NotFound),
        Action::SendError(expected.to_string())
    );
    assert_eq!(
        on_read(Target::ErrorPage, "./static/404.html", ReadOutcome::Failed),
        Action::SendError(expected.to_string())
    );
}

#[test]
fn media_type_goes_by_extension() {
    assert_eq!(
        on_read(Target::Requested, "static/css/site.css", ReadOutcome::Found(9)),
        Action::SendFile(
            "HTTP/1.1 200 OK\r\nContent-Type: text/css\r\nContent-Length: 9\r\n\r\n".to_string()
        )
    );
    assert_eq!(
        on_read(Target::Requested, "static/logo.PNG", ReadOutcome::Found(0)),
        Action::SendFile(
            "HTTP/1.1 200 OK\r\nContent-Type: image/png\r\nContent-Length: 0\r\n\r\n".to_string()
        )
    );
    assert_eq!(
        on_read(Target::Requested, "static/README", ReadOutcome::Found(3)),
        Action::SendFile(
            "HTTP/1.1 200 OK\r\nContent-Type: text/plain\r\nContent-Length: 3\r\n\r\n".to_string()
        )
    );
}

#[test]
fn decision_after_read_takes_the_media_type_given() {
    assert_eq!(
        decide_after_read(Target::ErrorPage, ReadOutcome::Found(77), "application/x-thing"),
        Action::SendFile(
            "HTTP/1.1 404 Not Found\r\nContent-Type: application/x-thing\r\nContent-Length: 77\r\n\r\n"
                .to_string()
        )
    );
    assert_eq!(
        decide_after_read(Target::Requested, ReadOutcome::NotFound, "text/html"),
        Action::Read(Target::ErrorPage)
    );
}

#[test]
fn web_server_keeps_its_settings() {
    let server = WebServer::new("127.0.0.1:8080".to_string(), "./static".to_string());
    assert_eq!(server.address(), "127.0.0.1:8080");
    assert_eq!(server.directory(), "./static");
    assert_eq!(POOL_SIZE, 4);
}

#[test]
fn chars_of_gives_every_character() {
    assert_eq!(chars_of(""), Vec::<char>::new());
    assert_eq!(chars_of("a\u{e9}\u{1F980} z"), vec!['a', '\u{e9}', '\u{1F980}', ' ', 'z']);
}

#[test]
fn long_request_line_is_read() {
    let mut line = String::from("GET /");
    let mut n: usize = 0;
    while n < 200_000 {
        line.push('a');
        n += 1;
    }
    line.push_str(" HTTP/1.1");
    let path = parse_request(&line).unwrap();
    assert_eq!(path.len(), 200_000);
}
