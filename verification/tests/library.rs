use koauth::config::{launch_plan, split_redis, working_directory, Args, Platform};
use koauth::headers::{
    examine_headers, header_lines_can_be_cut, is_auth_request, json_text, HeaderOutcome,
    HEADER_MAX_LENGTH,
};
use koauth::responses::{rejection_text, response, Rejection};
use koauth::login::{login_of, parse_json, read_login, write_json_string, write_object, JsonNode, LoginBody};
use koauth::session::{account_key, forward_request, step, Action, Event, Stage, StoredPassword};
use koauth::text::{decimal_string, parse_usize, trim_whitespace};

fn header_buffer(text: &str) -> (Vec<u8>, usize) {
    let mut buf = vec![0u8; HEADER_MAX_LENGTH];
    buf[..text.len()].copy_from_slice(text.as_bytes());
    (buf, text.len())
}

fn login_request(body: &str) -> String {
    format!(
        "POST /api/auth HTTP/1.1\r\nContent-Type: application/json\r\nContent-Length: {}\r\n\r\n{}",
        body.len(),
        body
    )
}

fn args() -> Args {
    Args {
        port: 23600,
        ko_path: String::from("KnockoutCityServer.exe"),
        ko_port: None,
        ko_min_port: 23600,
        ko_max_port: 23699,
        ko_players: None,
        ko_db: String::from("postgresql://127.0.0.1:5432/knockout"),
        ko_redis: String::from("127.0.0.1"),
        auth_db: None,
        create: true,
    }
}

/// Drives a connection from its first bytes through the header block.
fn after_headers(request: &str, create: bool) -> (Stage, Action) {
    let (stage, action) = step(
        Stage::AwaitPeek,
        Event::Peeked { bytes: request.as_bytes()[..23].to_vec() },
        create,
    );
    assert!(matches!(action, Action::ReadHeaders));
    let (buf, length) = header_buffer(request);
    assert!(header_lines_can_be_cut(&buf));
    step(stage, Event::HeadersRead { buf, length }, create)
}

#[test]
fn decimal_numbers() {
    assert_eq!(decimal_string(0), "0");
    assert_eq!(decimal_string(7), "7");
    assert_eq!(decimal_string(16384), "16384");
    assert_eq!(decimal_string(u64::MAX), u64::MAX.to_string());
}

#[test]
fn parsing_lengths() {
    assert_eq!(parse_usize("42"), Some(42));
    assert_eq!(parse_usize("+7"), Some(7));
    assert_eq!(parse_usize("007"), Some(7));
    assert_eq!(parse_usize(""), None);
    assert_eq!(parse_usize("+"), None);
    assert_eq!(parse_usize("-1"), None);
    assert_eq!(parse_usize("++1"), None);
    assert_eq!(parse_usize("12a"), None);
    assert_eq!(parse_usize(" 5"), None);
    let too_big = format!("{}0", usize::MAX);
    assert_eq!(parse_usize(&too_big), None);
    assert_eq!(parse_usize(&usize::MAX.to_string()), Some(usize::MAX));
    for s in ["0", "+3", "-3", "x", "99999999999999999999999"] {
        assert_eq!(parse_usize(s), s.parse::<usize>().ok());
    }
}

#[test]
fn trimming() {
    assert_eq!(trim_whitespace("  a b \t"), "a b");
    assert_eq!(trim_whitespace("\u{a0}\u{3000}x\u{2028}"), "x");
    assert_eq!(trim_whitespace(" \r\n "), "");
    for s in ["", " x ", "\u{85}y\u{205f}", "\u{200b}z"] {
        assert_eq!(trim_whitespace(s), s.trim());
    }
}

#[test]
fn responses_declare_their_length() {
    assert_eq!(response("200 OK", "hi", "X: y"), "HTTP/1.1 200 OK\r\nContent-Length: 2\r\nX: y\r\n\r\nhi");
    let body = "{\"error\":\"Forbidden\",\"message\":\"Incorect password\"}";
    assert_eq!(
        rejection_text(Rejection::IncorrectPassword),
        format!(
            "HTTP/1.1 403 Forbidden\r\nContent-Length: {}\r\nContent-Type: application/json\r\n\r\n{}",
            body.len(),
            body
        )
    );
    let large = rejection_text(Rejection::PayloadTooLarge);
    assert!(large.starts_with("HTTP/1.1 413 Payload Too Large\r\n"));
    assert!(large.ends_with("Keep the payload below 16384 bytes\"}"));
    let headers = rejection_text(Rejection::HeadersTooLarge);
    assert!(headers.starts_with("HTTP/1.1 431 Request Header Fields Too Large\r\n"));
    assert!(headers.ends_with("Keep the headers below 16384 bytes\"}"));
    assert!(rejection_text(Rejection::UnknownLength).starts_with("HTTP/1.1 411 Length Required\r\n"));
}

#[test]
fn login_request_line() {
    assert!(is_auth_request(b"POST /api/auth HTTP/1.1"));
    assert!(!is_auth_request(b"GET /api/auth HTTP/1.1 "));
    assert!(!is_auth_request(b"POST /api/auth HTTP/1."));
}

#[test]
fn header_block_outcomes() {
    let body = "{\"credentials\":{\"username\":\"a\",\"secret\":1}}";
    let request = login_request(body);
    let (buf, length) = header_buffer(&request);
    match examine_headers(&buf, length) {
        HeaderOutcome::Json { start, end, missing } => {
            assert_eq!(&buf[start..end], body.as_bytes());
            assert_eq!(missing, 0);
            assert_eq!(json_text(&buf, length, start, end, missing), body);
        }
        other => panic!("unexpected outcome {:?}", other),
    }

    let (buf, length) = header_buffer("POST /api/auth HTTP/1.1\r\nHost: x\r\n");
    assert_eq!(examine_headers(&buf, length), HeaderOutcome::Malformed);
    assert_eq!(examine_headers(&buf, HEADER_MAX_LENGTH), HeaderOutcome::TooLarge);

    let (buf, length) = header_buffer("POST /api/auth HTTP/1.1\r\nHost: localhost:8080\r\nContent-Length: 2\r\n\r\n{}");
    assert_eq!(examine_headers(&buf, length), HeaderOutcome::Malformed);

    let (buf, length) = header_buffer("POST /api/auth HTTP/1.1\r\nNoColon\r\n\r\n");
    assert_eq!(examine_headers(&buf, length), HeaderOutcome::Malformed);

    let (buf, length) = header_buffer("POST /api/auth HTTP/1.1\r\nHost: x\r\n\r\n{}");
    assert_eq!(examine_headers(&buf, length), HeaderOutcome::UnknownLength);

    let (buf, length) = header_buffer("POST /api/auth HTTP/1.1\r\nContent-Length: abc\r\n\r\n{}");
    assert_eq!(examine_headers(&buf, length), HeaderOutcome::Unreadable);

    let (buf, length) = header_buffer("POST /api/auth HTTP/1.1\r\nContent-Length: 20000\r\n\r\n{}");
    assert_eq!(examine_headers(&buf, length), HeaderOutcome::PayloadTooLarge);

    let (buf, length) = header_buffer("POST /api/auth HTTP/1.1\r\n  CONTENT-length :\u{a0}+2 \r\n\r\n{}");
    match examine_headers(&buf, length) {
        HeaderOutcome::Json { start, end, .. } => assert_eq!(&buf[start..end], b"{}"),
        other => panic!("unexpected outcome {:?}", other),
    }

    let (mut buf, length) = header_buffer("POST /api/auth HTTP/1.1\r\nContent-Length: 2\r\n\r\n{}");
    buf[length + 3] = 0xff;
    assert_eq!(examine_headers(&buf, length), HeaderOutcome::Unreadable);
}

#[test]
fn long_body_is_read_to_its_end() {
    let body = format!(
        "{{\"credentials\":{{\"username\":\"Long\",\"secret\":9}},\"pad\":\"{}\"}}",
        "p".repeat(16000)
    );
    let request = format!(
        "POST /api/auth HTTP/1.1\r\nContent-Length: {}\r\nX: {}\r\n\r\n{}",
        body.len(),
        "a".repeat(1000),
        body
    );
    assert!(request.len() > HEADER_MAX_LENGTH);
    let first = &request.as_bytes()[..HEADER_MAX_LENGTH];
    let rest = request.as_bytes()[HEADER_MAX_LENGTH..].to_vec();
    match examine_headers(first, HEADER_MAX_LENGTH) {
        HeaderOutcome::Json { missing, .. } => assert_eq!(missing, rest.len()),
        other => panic!("unexpected outcome {:?}", other),
    }
    let (stage, action) = step(Stage::AwaitHeaders, Event::HeadersRead { buf: first.to_vec(), length: HEADER_MAX_LENGTH }, true);
    match action {
        Action::ReadBody { length } => assert_eq!(length, rest.len()),
        _ => panic!("expected a read of the rest of the body"),
    }
    let (stage, action) = step(stage, Event::BodyRead { bytes: rest }, true);
    match action {
        Action::LookUpPassword { account } => assert_eq!(account, "long"),
        _ => panic!("expected a lookup"),
    }
    let (_, action) = step(stage, Event::PasswordLooked { stored: StoredPassword::Password(9) }, true);
    assert!(matches!(action, Action::Forward { .. }));
}

#[test]
fn body_just_past_the_buffer_is_completed() {
    let body = "{\"credentials\":{\"username\":\"a\",\"secret\":1}}";
    let head = format!("POST /api/auth HTTP/1.1\r\nContent-Length: {}\r\nX: ", body.len());
    let pad = HEADER_MAX_LENGTH - head.len() - 4 - body.len() + 2;
    let request = format!("{}{}\r\n\r\n{}", head, "b".repeat(pad), body);
    assert_eq!(request.len(), HEADER_MAX_LENGTH + 2);
    let first = &request.as_bytes()[..HEADER_MAX_LENGTH];
    match examine_headers(first, HEADER_MAX_LENGTH) {
        HeaderOutcome::Json { missing, .. } => assert_eq!(missing, 2),
        other => panic!("unexpected outcome {:?}", other),
    }
}

#[test]
fn header_lines_must_follow_the_request_line() {
    let (buf, _) = header_buffer("POST /api/auth HTTP/1.1\r\n\r\n");
    assert!(!header_lines_can_be_cut(&buf));
    let (buf, _) = header_buffer("POST /api/auth HTTP/1.1\u{20ac}\r\n\r\n");
    assert!(!header_lines_can_be_cut(&buf));
    let (buf, _) = header_buffer("POST /api/auth HTTP/1.1\r\nA: b\r\n\r\n");
    assert!(header_lines_can_be_cut(&buf));
}

#[test]
fn other_connections_are_relayed() {
    let (stage, action) = step(Stage::AwaitPeek, Event::Peeked { bytes: b"GET / HTTP/1.1\r\nHost: a\r\n".to_vec() }, true);
    assert!(matches!(stage, Stage::Finished));
    assert!(matches!(action, Action::Relay));
}

#[test]
fn matching_password_is_forwarded_without_secret() {
    let body = "{\"credentials\":{\"username\":\"Alice\",\"secret\":1234},\"platform\":\"pc\"}";
    let (stage, action) = after_headers(&login_request(body), false);
    match &action {
        Action::LookUpPassword { account } => assert_eq!(account, "alice"),
        _ => panic!("expected a lookup"),
    }
    let (stage, action) = step(stage, Event::PasswordLooked { stored: StoredPassword::Password(1234) }, false);
    assert!(matches!(stage, Stage::Finished));
    match action {
        Action::Forward { request, username } => {
            assert_eq!(username, "Alice");
            let forwarded = "{\"credentials\":{\"username\":\"Alice\"},\"platform\":\"pc\"}";
            assert_eq!(request, forward_request(forwarded));
            assert_eq!(
                request,
                format!(
                    "POST /api/auth HTTP/1.1\r\nHost: localhost\r\nContent-Type: application/json\r\nContent-Length: {}\r\n\r\n{}",
                    forwarded.len(),
                    forwarded
                )
            );
            assert!(!request.contains("secret"));
        }
        _ => panic!("expected a forward"),
    }
}

#[test]
fn wrong_password_is_refused() {
    let body = "{\"credentials\":{\"username\":\"bob\",\"secret\":1}}";
    let (stage, _) = after_headers(&login_request(body), true);
    let (stage, action) = step(stage, Event::PasswordLooked { stored: StoredPassword::Password(2) }, true);
    assert!(matches!(stage, Stage::Finished));
    match action {
        Action::Reject { rejection, user } => {
            assert_eq!(rejection, Rejection::IncorrectPassword);
            assert_eq!(user.as_deref(), Some("bob"));
        }
        _ => panic!("expected a refusal"),
    }
}

#[test]
fn unknown_user_gets_an_account() {
    let body = "{\"credentials\":{\"username\":\"Carol\",\"secret\":77}}";
    let (stage, _) = after_headers(&login_request(body), true);
    let (stage, action) = step(stage, Event::PasswordLooked { stored: StoredPassword::NoAccount }, true);
    match action {
        Action::StorePassword { account, secret } => {
            assert_eq!(account, "carol");
            assert_eq!(secret, 77);
        }
        _ => panic!("expected the password to be stored"),
    }
    let (stage, action) = step(stage, Event::PasswordStored, true);
    assert!(matches!(stage, Stage::Finished));
    assert!(matches!(action, Action::Forward { .. }));
}

#[test]
fn unknown_user_without_account_creation_is_refused() {
    let body = "{\"credentials\":{\"username\":\"dave\",\"secret\":5}}";
    let (stage, _) = after_headers(&login_request(body), false);
    let (_, action) = step(stage, Event::PasswordLooked { stored: StoredPassword::NoAccount }, false);
    match action {
        Action::Reject { rejection, .. } => assert_eq!(rejection, Rejection::UsernameNotRegistered),
        _ => panic!("expected a refusal"),
    }
}

#[test]
fn bodies_without_credentials_are_refused() {
    let cases = [
        ("not json", Rejection::BadlyFormattedJson),
        ("{\"credentials\":{\"secret\":5}}", Rejection::NoUsernameSpecified),
        ("[1,2]", Rejection::NoUsernameSpecified),
        ("{\"credentials\":{\"username\":\"e\"}}", Rejection::NoPasswordSpecified),
        ("{\"credentials\":{\"username\":\"e\",\"secret\":-5}}", Rejection::NoPasswordSpecified),
        ("{\"credentials\":{\"username\":\"e\",\"secret\":\"5\"}}", Rejection::NoPasswordSpecified),
    ];
    for (body, expected) in cases {
        let (stage, action) = after_headers(&login_request(body), true);
        assert!(matches!(stage, Stage::Finished));
        match action {
            Action::Reject { rejection, .. } => assert_eq!(rejection, expected, "{}", body),
            _ => panic!("expected a refusal for {}", body),
        }
    }
}

#[test]
fn header_refusals() {
    let (_, action) = after_headers("POST /api/auth HTTP/1.1\r\nHost: x\r\n\r\n{}", true);
    assert!(matches!(action, Action::Reject { rejection: Rejection::UnknownLength, .. }));
    let (_, action) = after_headers("POST /api/auth HTTP/1.1\r\nContent-Length: x\r\n\r\n{}", true);
    assert!(matches!(action, Action::Drop));
    let (_, action) = after_headers("POST /api/auth HTTP/1.1\r\nContent-Length: 16385\r\n\r\n{}", true);
    assert!(matches!(action, Action::Reject { rejection: Rejection::PayloadTooLarge, .. }));
}

#[test]
fn unexpected_events_drop_the_connection() {
    let (stage, action) = step(Stage::AwaitHeaders, Event::BodyRead { bytes: Vec::new() }, true);
    assert!(matches!(stage, Stage::Finished));
    assert!(matches!(action, Action::Drop));
}

#[test]
fn accounts_ignore_case() {
    assert_eq!(account_key("BoB"), "bob");
    assert_eq!(account_key("bob"), account_key("BOB"));
}

#[test]
fn defaults_are_filled_in() {
    let a = args().with_defaults();
    assert_eq!(a.ko_port, Some(23599));
    assert_eq!(a.auth_db.as_deref(), Some("postgresql://127.0.0.1:5432/knockout"));
    assert_eq!(a.ko_redis, "127.0.0.1:6379");
    let mut b = args();
    b.ko_redis = String::from("redis:1234");
    b.ko_port = Some(5);
    b.auth_db = Some(String::from("other"));
    let b = b.with_defaults();
    assert_eq!(b.ko_redis, "redis:1234");
    assert_eq!(b.ko_port, Some(5));
    assert_eq!(b.auth_db.as_deref(), Some("other"));
    let again = a.with_defaults();
    assert_eq!(again.ko_redis, "127.0.0.1:6379");
}

#[test]
fn redis_address_pieces() {
    assert_eq!(split_redis("127.0.0.1:6379"), ("127.0.0.1", "6379"));
    assert_eq!(split_redis("host:1:2"), ("host", "1"));
    assert_eq!(split_redis(":9"), ("", "9"));
}

#[test]
fn launch_commands() {
    let mut a = args().with_defaults();
    a.ko_players = Some(8);
    let expected = vec![
        "-backend_port=23599",
        "-server_min_port=23600",
        "-server_max_port=23699",
        "-backend_db=postgresql://127.0.0.1:5432/knockout",
        "-backend_redis_db_host=127.0.0.1",
        "-backend_redis_db_port=6379",
        "-backend_tunable_user_connections_max_per_backend=8",
    ];
    let windows = launch_plan(&a, Platform::Windows).unwrap();
    assert_eq!(windows.program, "KnockoutCityServer.exe");
    assert_eq!(windows.args, expected);
    let unix = launch_plan(&a, Platform::Unix).unwrap();
    assert_eq!(unix.program, "wine");
    assert_eq!(unix.args[0], "KnockoutCityServer.exe");
    assert_eq!(&unix.args[1..], &expected[..]);
    assert!(launch_plan(&a, Platform::Other).is_none());
}

#[test]
fn written_numbers_read_back() {
    for n in [0u64, 9, 10, 52, 16384, 4_294_967_295] {
        assert_eq!(parse_usize(&decimal_string(n)), Some(n as usize));
    }
    let request = forward_request("{\"a\":1}");
    let length_line = request.lines().find(|l| l.starts_with("Content-Length: ")).unwrap();
    assert_eq!(parse_usize(&length_line["Content-Length: ".len()..]), Some(7));
}

#[test]
fn unreadable_password_means_taken() {
    let body = "{\"credentials\":{\"username\":\"eve\",\"secret\":3}}";
    for create in [true, false] {
        let (stage, _) = after_headers(&login_request(body), create);
        let (stage, action) = step(stage, Event::PasswordLooked { stored: StoredPassword::Unreadable }, create);
        assert!(matches!(stage, Stage::Finished));
        assert!(matches!(action, Action::Reject { rejection: Rejection::IncorrectPassword, .. }));
    }
}

/// The body that serde_json writes after taking `credentials.secret` out.
fn serde_rewrite(text: &str) -> String {
    let mut v: serde_json::Value = serde_json::from_str(text).unwrap();
    v["credentials"].as_object_mut().unwrap().remove("secret");
    v.to_string()
}

#[test]
fn json_levels() {
    match parse_json("{\"b\":[1, 2],\"a\":{\"x\" : null}}") {
        Some(JsonNode::Object(members)) => {
            assert_eq!(members.len(), 2);
            assert_eq!(members[0].key, "a");
            assert_eq!(members[0].text, "{\"x\":null}");
            assert_eq!(members[0].members, Some(vec![(String::from("x"), String::from("null"))]));
            assert_eq!(members[1].key, "b");
            assert_eq!(members[1].text, "[1,2]");
            assert_eq!(members[1].members, None);
        }
        _ => panic!("expected an object"),
    }
    assert!(matches!(parse_json("18446744073709551615"), Some(JsonNode::Number(Some(u64::MAX)))));
    assert!(matches!(parse_json("18446744073709551616"), Some(JsonNode::Number(None))));
    assert!(matches!(parse_json("-1"), Some(JsonNode::Number(None))));
    assert!(matches!(parse_json("1.5"), Some(JsonNode::Number(None))));
    assert!(matches!(parse_json("true"), Some(JsonNode::Other)));
    assert!(parse_json("{").is_none());
    assert_eq!(write_json_string("a\"b\n\u{1}é"), "\"a\\\"b\\n\\u0001é\"");
    assert_eq!(write_object(&Vec::new()), "{}");
    let members = vec![(String::from("k\""), String::from("1")), (String::from("z"), String::from("[]"))];
    assert_eq!(write_object(&members), "{\"k\\\"\":1,\"z\":[]}");
}

#[test]
fn forwarded_body_matches_serde_json() {
    let bodies = [
        "{\"credentials\":{\"username\":\"u\",\"secret\":5}}",
        "{\"z\":1,\"credentials\":{\"secret\":5,\"username\":\"u\",\"extra\":[1,{\"secret\":2}]},\"a\":\"\\u00e9\\n\"}",
        "{\"credentials\":{\"username\":\"u\",\"secret\":5,\"secret\":6}}",
        "{ \"credentials\" : { \"username\" : \"u\" , \"secret\" : 18446744073709551615 } , \"n\": 1e3 }",
        "{\"credentials\":{\"username\":\"u\",\"secret\":5,\"f\":0.30000000000000004441,\"g\":[1.7976931348623157e308,2.2250738585072014e-308,123456789.123456789e-7]}}",
    ];
    for body in bodies {
        match read_login(body) {
            LoginBody::Complete { username, forwarded, .. } => {
                assert_eq!(username, "u");
                assert_eq!(forwarded, serde_rewrite(body), "{}", body);
                assert!(!forwarded.contains("\"secret\":5"));
            }
            _ => panic!("expected a complete login for {}", body),
        }
    }
}

#[test]
fn secret_value_does_not_change_the_forwarded_body() {
    let one = read_login("{\"credentials\":{\"username\":\"u\",\"secret\":1},\"x\":2}");
    let two = read_login("{\"credentials\":{\"username\":\"u\",\"secret\":99},\"x\":2}");
    match (one, two) {
        (LoginBody::Complete { forwarded: a, .. }, LoginBody::Complete { forwarded: b, .. }) => assert_eq!(a, b),
        _ => panic!("expected complete logins"),
    }
}

#[test]
fn game_server_directory() {
    assert_eq!(working_directory("KnockoutCityServer.exe"), ".");
    assert_eq!(working_directory("/opt/ko/server.exe"), "/opt/ko");
    assert_eq!(working_directory("/server.exe"), "/");
    assert_eq!(working_directory("/"), "/");
    assert_eq!(working_directory("a/b/"), "a");
    assert_eq!(working_directory("a//b"), "a");
    assert_eq!(working_directory("ko/./server.exe"), "ko");
    for p in ["/opt/ko/server.exe", "a/b/", "x/y/z.exe", "../s.exe"] {
        assert_eq!(working_directory(p), std::path::Path::new(p).parent().unwrap().to_str().unwrap());
    }
}

#[test]
fn partial_first_read_is_completed() {
    let body = "{\"credentials\":{\"username\":\"Pat\",\"secret\":4}}";
    let request = login_request(body);
    let cut = request.len() - 10;
    let mut buf = vec![0u8; HEADER_MAX_LENGTH];
    buf[..cut].copy_from_slice(&request.as_bytes()[..cut]);
    match examine_headers(&buf, cut) {
        HeaderOutcome::Json { missing, .. } => assert_eq!(missing, 10),
        other => panic!("unexpected outcome {:?}", other),
    }
    let (stage, action) = step(Stage::AwaitHeaders, Event::HeadersRead { buf, length: cut }, true);
    assert!(matches!(action, Action::ReadBody { length: 10 }));
    let rest = request.as_bytes()[cut..].to_vec();
    let (_, action) = step(stage, Event::BodyRead { bytes: rest }, true);
    match action {
        Action::LookUpPassword { account } => assert_eq!(account, "pat"),
        _ => panic!("expected a lookup"),
    }
}

#[test]
fn login_from_parsed_values() {
    let top = parse_json("{\"credentials\":{\"username\":\"u\",\"secret\":7,\"k\":true}}").unwrap();
    let name = parse_json("\"u\"");
    let secret = parse_json("7");
    match login_of(&top, name, secret) {
        LoginBody::Complete { username, secret, forwarded } => {
            assert_eq!(username, "u");
            assert_eq!(secret, 7);
            assert_eq!(forwarded, "{\"credentials\":{\"k\":true,\"username\":\"u\"}}");
        }
        _ => panic!("expected a complete login"),
    }
    assert!(matches!(login_of(&top, parse_json("1"), parse_json("7")), LoginBody::NoUsername));
    assert!(matches!(login_of(&top, parse_json("\"u\""), parse_json("-7")), LoginBody::NoSecret { .. }));
    assert!(matches!(login_of(&top, parse_json("\"u\""), None), LoginBody::NoSecret { .. }));
    let flat = parse_json("{\"credentials\":3}").unwrap();
    assert!(matches!(login_of(&flat, parse_json("\"u\""), parse_json("7")), LoginBody::NoUsername));
}

#[test]
fn string_escaping_matches_serde_json() {
    let all: String = (0u32..0x80).filter_map(char::from_u32).chain("é\u{2028}😀".chars()).collect();
    assert_eq!(write_json_string(&all), serde_json::to_string(&all).unwrap());
    assert_eq!(write_json_string("\u{1f}\u{8}\u{c}"), "\"\\u001f\\b\\f\"");
}
