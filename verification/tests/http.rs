//! The web server: requests, the JSON API, routes, responses and connections.
use srkos::ipc::{Command, Expression};
use srkos::tasks::http::{
    accept_client, answer, api_command_to_command, audio_step, find_body_start, parse_api_body,
    parse_request, part_head, respond, route_request, route_with_command, select_api_command,
    video_step, ApiCommand, ConnectionCount, ConnectionGuard, Method, RequestParts, ResponseBody,
    RouteResult, StreamStep, MAX_CONNECTIONS, PART_END, PART_HEAD_CAPACITY, RESPONSE_200_AUDIO,
    RESPONSE_200_HTML, RESPONSE_200_JSON, RESPONSE_200_MJPEG, RESPONSE_400, RESPONSE_404,
    RESPONSE_503,
};

#[test]
fn find_body_start_locates_double_crlf() {
    // "GET / HTTP/1.1\r\n" = 16 bytes, "Host: 192.168.4.1\r\n" = 19 bytes,
    // "\r\n" blank line at positions 35-36 → body at 37.
    let raw = b"GET / HTTP/1.1\r\nHost: 192.168.4.1\r\n\r\nbody";
    assert_eq!(find_body_start(raw), Some(37));
}

#[test]
fn find_body_start_returns_none_without_terminator() {
    let raw = b"GET / HTTP/1.1\r\nHost: 192.168.4.1\r\n";
    assert_eq!(find_body_start(raw), None);
}

#[test]
fn find_body_start_empty_body_after_terminator() {
    // "\r\n\r\n" at positions 14-17; body starts at 18.
    let raw = b"GET / HTTP/1.1\r\n\r\n";
    assert_eq!(find_body_start(raw), Some(18));
}

#[test]
fn parse_request_get_root() {
    let raw = b"GET / HTTP/1.1\r\nHost: 192.168.4.1\r\n\r\n";
    let req = parse_request(raw).unwrap();
    assert_eq!(req.method, Method::Get);
    assert_eq!(req.path, "/");
    assert!(req.body.is_empty());
}

#[test]
fn parse_request_post_api_command_with_body() {
    let raw =
        b"POST /api/command HTTP/1.1\r\nContent-Type: application/json\r\n\r\n{\"SetFaceExpression\":\"Happy\"}";
    let req = parse_request(raw).unwrap();
    assert_eq!(req.method, Method::Post);
    assert_eq!(req.path, "/api/command");
    assert_eq!(req.body, b"{\"SetFaceExpression\":\"Happy\"}");
}

#[test]
fn parse_request_strips_query_string() {
    let raw = b"GET /?debug=1 HTTP/1.1\r\n\r\n";
    let req = parse_request(raw).unwrap();
    assert_eq!(req.path, "/");
}

#[test]
fn parse_request_index_html_path() {
    let raw = b"GET /index.html HTTP/1.1\r\n\r\n";
    let req = parse_request(raw).unwrap();
    assert_eq!(req.path, "/index.html");
    assert_eq!(req.method, Method::Get);
}

#[test]
fn parse_request_returns_none_for_empty_input() {
    assert!(parse_request(b"").is_none());
}

#[test]
fn parse_request_returns_none_for_invalid_utf8() {
    assert!(parse_request(b"\xff\xfe").is_none());
}

#[test]
fn parse_request_other_method() {
    let raw = b"DELETE /foo HTTP/1.1\r\n\r\n";
    let req = parse_request(raw).unwrap();
    assert_eq!(req.method, Method::Other);
    assert_eq!(req.path, "/foo");
}

#[test]
fn parse_api_body_set_face_happy() {
    let body = br#"{"SetFaceExpression":"Happy"}"#;
    assert_eq!(
        parse_api_body(body),
        Some(Command::SetFaceExpression(Expression::Happy))
    );
}

#[test]
fn parse_api_body_set_face_sad() {
    let body = br#"{"SetFaceExpression":"Sad"}"#;
    assert_eq!(
        parse_api_body(body),
        Some(Command::SetFaceExpression(Expression::Sad))
    );
}

#[test]
fn parse_api_body_set_face_neutral() {
    let body = br#"{"SetFaceExpression":"Neutral"}"#;
    assert_eq!(
        parse_api_body(body),
        Some(Command::SetFaceExpression(Expression::Neutral))
    );
}

#[test]
fn parse_api_body_set_face_surprised() {
    let body = br#"{"SetFaceExpression":"Surprised"}"#;
    assert_eq!(
        parse_api_body(body),
        Some(Command::SetFaceExpression(Expression::Surprised))
    );
}

#[test]
fn parse_api_body_move_servo() {
    let body = br#"{"MoveServo":[1,90]}"#;
    assert_eq!(parse_api_body(body), Some(Command::MoveServo(1, 90)));
}

#[test]
fn parse_api_body_move_servo_max_angle() {
    let body = br#"{"MoveServo":[7,180]}"#;
    assert_eq!(parse_api_body(body), Some(Command::MoveServo(7, 180)));
}

#[test]
fn parse_api_body_move_servo_out_of_range_angle_returns_none() {
    let body = br#"{"MoveServo":[0,181]}"#;
    assert_eq!(
        parse_api_body(body),
        None,
        "angle > 180 must be rejected to protect servo hardware"
    );
}

#[test]
fn parse_api_body_stream_audio_start() {
    let body = br#"{"StreamAudio":true}"#;
    assert_eq!(parse_api_body(body), Some(Command::StreamAudio(true)));
}

#[test]
fn parse_api_body_stream_audio_stop() {
    let body = br#"{"StreamAudio":false}"#;
    assert_eq!(parse_api_body(body), Some(Command::StreamAudio(false)));
}

#[test]
fn parse_api_body_invalid_json_returns_none() {
    assert_eq!(parse_api_body(b"not json"), None);
}

#[test]
fn parse_api_body_empty_returns_none() {
    assert_eq!(parse_api_body(b""), None);
}

#[test]
fn parse_api_body_unknown_expression_returns_none() {
    let body = br#"{"SetFaceExpression":"Angry"}"#;
    assert_eq!(parse_api_body(body), None);
}

#[test]
fn parse_api_body_unknown_command_key_returns_none() {
    let body = br#"{"UnknownCommand":"value"}"#;
    assert_eq!(parse_api_body(body), None);
}

#[test]
fn route_get_root_serves_index() {
    let req = RequestParts {
        method: Method::Get,
        path: "/",
        body: &[],
    };
    assert_eq!(route_request(&req), RouteResult::ServeIndex);
}

#[test]
fn route_get_index_html_serves_index() {
    let req = RequestParts {
        method: Method::Get,
        path: "/index.html",
        body: &[],
    };
    assert_eq!(route_request(&req), RouteResult::ServeIndex);
}

#[test]
fn route_post_api_command_set_face() {
    let body = br#"{"SetFaceExpression":"Neutral"}"#;
    let req = RequestParts {
        method: Method::Post,
        path: "/api/command",
        body,
    };
    assert_eq!(
        route_request(&req),
        RouteResult::CommandAccepted(Command::SetFaceExpression(Expression::Neutral))
    );
}

#[test]
fn route_post_api_command_move_servo() {
    let body = br#"{"MoveServo":[3,45]}"#;
    let req = RequestParts {
        method: Method::Post,
        path: "/api/command",
        body,
    };
    assert_eq!(
        route_request(&req),
        RouteResult::CommandAccepted(Command::MoveServo(3, 45))
    );
}

#[test]
fn route_post_api_command_stream_audio() {
    let body = br#"{"StreamAudio":true}"#;
    let req = RequestParts {
        method: Method::Post,
        path: "/api/command",
        body,
    };
    assert_eq!(
        route_request(&req),
        RouteResult::CommandAccepted(Command::StreamAudio(true))
    );
}

#[test]
fn route_post_api_command_invalid_json_returns_bad_request() {
    let req = RequestParts {
        method: Method::Post,
        path: "/api/command",
        body: b"bad",
    };
    assert_eq!(route_request(&req), RouteResult::BadRequest);
}

#[test]
fn route_post_api_command_empty_body_returns_bad_request() {
    let req = RequestParts {
        method: Method::Post,
        path: "/api/command",
        body: &[],
    };
    assert_eq!(route_request(&req), RouteResult::BadRequest);
}

#[test]
fn route_unknown_path_returns_not_found() {
    let req = RequestParts {
        method: Method::Get,
        path: "/robots.txt",
        body: &[],
    };
    assert_eq!(route_request(&req), RouteResult::NotFound);
}

#[test]
fn route_post_to_root_returns_not_found() {
    let req = RequestParts {
        method: Method::Post,
        path: "/",
        body: &[],
    };
    assert_eq!(route_request(&req), RouteResult::NotFound);
}

#[test]
fn full_roundtrip_set_face_happy() {
    let raw = b"POST /api/command HTTP/1.1\r\nContent-Type: application/json\r\n\r\n{\"SetFaceExpression\":\"Happy\"}";
    let req = parse_request(raw).unwrap();
    assert_eq!(
        route_request(&req),
        RouteResult::CommandAccepted(Command::SetFaceExpression(Expression::Happy))
    );
}

#[test]
fn full_roundtrip_move_servo() {
    let raw = b"POST /api/command HTTP/1.1\r\nContent-Type: application/json\r\n\r\n{\"MoveServo\":[2,135]}";
    let req = parse_request(raw).unwrap();
    assert_eq!(
        route_request(&req),
        RouteResult::CommandAccepted(Command::MoveServo(2, 135))
    );
}

#[test]
fn full_roundtrip_stream_audio_start() {
    let raw = b"POST /api/command HTTP/1.1\r\nContent-Type: application/json\r\n\r\n{\"StreamAudio\":true}";
    let req = parse_request(raw).unwrap();
    assert_eq!(
        route_request(&req),
        RouteResult::CommandAccepted(Command::StreamAudio(true))
    );
}

#[test]
fn full_roundtrip_stream_video_start() {
    let raw = b"POST /api/command HTTP/1.1\r\nContent-Type: application/json\r\n\r\n{\"StreamVideo\":true}";
    let req = parse_request(raw).unwrap();
    assert_eq!(
        route_request(&req),
        RouteResult::CommandAccepted(Command::StreamVideo(true))
    );
}

#[test]
fn full_roundtrip_get_root() {
    let raw = b"GET / HTTP/1.1\r\nHost: 192.168.4.1\r\n\r\n";
    let req = parse_request(raw).unwrap();
    assert_eq!(route_request(&req), RouteResult::ServeIndex);
}

#[test]
fn connection_guard_allows_up_to_max() {
    let mut count = ConnectionCount::new();
    let g1 = ConnectionGuard::try_acquire(&mut count);
    let g2 = ConnectionGuard::try_acquire(&mut count);
    let g3 = ConnectionGuard::try_acquire(&mut count);
    assert!(g1.is_some(), "first connection must be accepted");
    assert!(g2.is_some(), "second connection must be accepted");
    assert!(
        g3.is_none(),
        "third connection must be rejected (limit = 2)"
    );
    g1.unwrap().release(&mut count);
    g2.unwrap().release(&mut count);
}

#[test]
fn connection_guard_decrements_on_drop() {
    let mut count = ConnectionCount::new();
    {
        let g = ConnectionGuard::try_acquire(&mut count).unwrap();
        assert_eq!(ConnectionGuard::active(&count), 1);
        g.release(&mut count);
    }
    assert_eq!(
        ConnectionGuard::active(&count),
        0,
        "counter must return to 0 after drop"
    );
}

#[test]
fn connection_guard_reacquires_after_release() {
    let mut count = ConnectionCount::new();
    let g1 = ConnectionGuard::try_acquire(&mut count).unwrap();
    let g2 = ConnectionGuard::try_acquire(&mut count).unwrap();
    assert!(
        ConnectionGuard::try_acquire(&mut count).is_none(),
        "limit must be enforced"
    );
    g1.release(&mut count);
    let g3 = ConnectionGuard::try_acquire(&mut count);
    assert!(
        g3.is_some(),
        "a slot must become available after releasing a guard"
    );
    g2.release(&mut count);
    g3.unwrap().release(&mut count);
}

#[test]
fn connection_guard_max_connections_constant_is_two() {
    assert_eq!(MAX_CONNECTIONS, 2);
}

#[test]
fn response_200_html_starts_with_http_200() {
    assert!(RESPONSE_200_HTML.as_bytes().starts_with(b"HTTP/1.1 200 OK"));
}

#[test]
fn response_200_html_contains_html_content_type() {
    let text = core::str::from_utf8(RESPONSE_200_HTML.as_bytes()).unwrap();
    assert!(text.contains("text/html"));
}

#[test]
fn response_200_json_contains_json_content_type() {
    let text = core::str::from_utf8(RESPONSE_200_JSON.as_bytes()).unwrap();
    assert!(text.contains("application/json"));
}

#[test]
fn response_400_starts_with_http_400() {
    assert!(RESPONSE_400.as_bytes().starts_with(b"HTTP/1.1 400"));
}

#[test]
fn response_404_starts_with_http_404() {
    assert!(RESPONSE_404.as_bytes().starts_with(b"HTTP/1.1 404"));
}

#[test]
fn response_503_contains_retry_after() {
    let text = core::str::from_utf8(RESPONSE_503.as_bytes()).unwrap();
    assert!(text.contains("Retry-After"));
}

#[test]
fn response_200_mjpeg_starts_with_http_200() {
    assert!(RESPONSE_200_MJPEG.as_bytes().starts_with(b"HTTP/1.1 200 OK"));
}

#[test]
fn response_200_mjpeg_contains_mjpeg_content_type() {
    let text = core::str::from_utf8(RESPONSE_200_MJPEG.as_bytes()).unwrap();
    assert!(text.contains("multipart/x-mixed-replace"));
}

#[test]
fn response_200_audio_starts_with_http_200() {
    assert!(RESPONSE_200_AUDIO.as_bytes().starts_with(b"HTTP/1.1 200 OK"));
}

#[test]
fn response_200_audio_contains_audio_l16_content_type() {
    let text = core::str::from_utf8(RESPONSE_200_AUDIO.as_bytes()).unwrap();
    assert!(text.contains("audio/l16"));
}

#[test]
fn all_responses_terminate_with_double_crlf() {
    for resp in &[
        RESPONSE_200_HTML,
        RESPONSE_200_JSON,
        RESPONSE_200_MJPEG,
        RESPONSE_200_AUDIO,
        RESPONSE_400,
        RESPONSE_404,
        RESPONSE_503,
    ] {
        assert!(
            resp.as_bytes().ends_with(b"\r\n\r\n"),
            "every response header must end with \\r\\n\\r\\n"
        );
    }
}

#[test]
fn route_get_video_stream_serves_video_stream() {
    let req = RequestParts {
        method: Method::Get,
        path: "/api/stream/video",
        body: &[],
    };
    assert_eq!(route_request(&req), RouteResult::ServeVideoStream);
}

#[test]
fn route_get_audio_stream_serves_audio_stream() {
    let req = RequestParts {
        method: Method::Get,
        path: "/api/stream/audio",
        body: &[],
    };
    assert_eq!(route_request(&req), RouteResult::ServeAudioStream);
}

#[test]
fn route_post_video_stream_returns_not_found() {
    let req = RequestParts {
        method: Method::Post,
        path: "/api/stream/video",
        body: &[],
    };
    assert_eq!(route_request(&req), RouteResult::NotFound);
}

#[test]
fn route_post_audio_stream_returns_not_found() {
    let req = RequestParts {
        method: Method::Post,
        path: "/api/stream/audio",
        body: &[],
    };
    assert_eq!(route_request(&req), RouteResult::NotFound);
}

#[test]
fn parse_api_body_stream_video_start() {
    let body = br#"{"StreamVideo":true}"#;
    assert_eq!(parse_api_body(body), Some(Command::StreamVideo(true)));
}

#[test]
fn parse_api_body_stream_video_stop() {
    let body = br#"{"StreamVideo":false}"#;
    assert_eq!(parse_api_body(body), Some(Command::StreamVideo(false)));
}

#[test]
fn route_post_api_command_stream_video() {
    let body = br#"{"StreamVideo":true}"#;
    let req = RequestParts {
        method: Method::Post,
        path: "/api/command",
        body,
    };
    assert_eq!(
        route_request(&req),
        RouteResult::CommandAccepted(Command::StreamVideo(true))
    );
}

fn name(text: &str) -> heapless::String<16> {
    heapless::String::try_from(text).unwrap()
}

#[test]
fn find_body_start_takes_the_first_blank_line() {
    assert_eq!(find_body_start(b"a\r\n\r\nb\r\n\r\nc"), Some(5));
    assert_eq!(find_body_start(b"\r\n\r\n"), Some(4));
    assert_eq!(find_body_start(b"\r\n\r"), None);
    assert_eq!(find_body_start(b""), None);
}

#[test]
fn parse_request_needs_a_line_break_and_a_space() {
    assert!(parse_request(b"GET / HTTP/1.1").is_none());
    assert!(parse_request(b"GET / HTTP/1.1\n").is_none());
    assert!(parse_request(b"GET\r\n\r\n").is_none());
    assert!(parse_request(b"\r\nGET / HTTP/1.1\r\n").is_none());
}

#[test]
fn parse_request_without_version_or_blank_line() {
    let req = parse_request(b"GET /a?b c\r\n").unwrap();
    assert_eq!((req.method, req.path), (Method::Get, "/a"));
    assert!(req.body.is_empty());
    let req = parse_request(b"GET /x\r\nHost: y\r\n").unwrap();
    assert_eq!(req.path, "/x");
    assert!(req.body.is_empty());
    let req = parse_request(b" \r\n").unwrap();
    assert_eq!((req.method, req.path), (Method::Other, ""));
}

#[test]
fn parse_request_keeps_text_beyond_ascii() {
    let raw = "POST /gr\u{fc}\u{df}e?\u{20ac} HTTP/1.1\r\nA: \u{1f600}\r\n\r\n\u{e9}".as_bytes();
    let req = parse_request(raw).unwrap();
    assert_eq!(req.method, Method::Post);
    assert_eq!(req.path, "/gr\u{fc}\u{df}e");
    assert_eq!(req.body, "\u{e9}".as_bytes());
}

#[test]
fn parse_request_rejects_a_body_that_is_not_text() {
    assert!(parse_request(b"GET / HTTP/1.1\r\n\r\n\xff").is_none());
}

#[test]
fn methods_are_case_sensitive() {
    assert_eq!(parse_request(b"get / HTTP/1.1\r\n\r\n").unwrap().method, Method::Other);
}

#[test]
fn routes_ignore_the_query_string() {
    let with = parse_request(b"GET /api/stream/video?x=1 HTTP/1.1\r\n\r\n").unwrap();
    let without = parse_request(b"GET /api/stream/video HTTP/1.1\r\n\r\n").unwrap();
    assert_eq!(route_request(&with), route_request(&without));
    assert_eq!(route_request(&with), RouteResult::ServeVideoStream);
}

#[test]
fn route_other_method_returns_not_found() {
    let req = RequestParts { method: Method::Other, path: "/", body: &[] };
    assert_eq!(route_request(&req), RouteResult::NotFound);
}

#[test]
fn route_get_api_command_returns_not_found() {
    let body = br#"{"StreamVideo":true}"#;
    let req = RequestParts { method: Method::Get, path: "/api/command", body };
    assert_eq!(route_request(&req), RouteResult::NotFound);
}

#[test]
fn route_post_api_command_unacceptable_returns_bad_request() {
    let body = br#"{"MoveServo":[0,181]}"#;
    let req = RequestParts { method: Method::Post, path: "/api/command", body };
    assert_eq!(route_request(&req), RouteResult::BadRequest);
}

#[test]
fn route_with_command_decides_by_the_command() {
    assert_eq!(
        route_with_command(&Method::Post, "/api/command", Some(Command::StreamAudio(true))),
        RouteResult::CommandAccepted(Command::StreamAudio(true))
    );
    assert_eq!(
        route_with_command(&Method::Post, "/api/command", None),
        RouteResult::BadRequest
    );
    assert_eq!(
        route_with_command(&Method::Get, "/", Some(Command::StreamAudio(true))),
        RouteResult::ServeIndex
    );
}

#[test]
fn api_commands_become_commands() {
    let faces = [
        ("Happy", Some(Expression::Happy)),
        ("Sad", Some(Expression::Sad)),
        ("Neutral", Some(Expression::Neutral)),
        ("Surprised", Some(Expression::Excited)),
        ("Excited", None),
        ("happy", None),
        ("", None),
    ];
    for (text, mood) in faces {
        assert_eq!(
            api_command_to_command(ApiCommand::SetFaceExpression(name(text))),
            mood.map(Command::SetFaceExpression)
        );
    }
    assert_eq!(
        api_command_to_command(ApiCommand::MoveServo((255, 180))),
        Some(Command::MoveServo(255, 180))
    );
    assert_eq!(api_command_to_command(ApiCommand::MoveServo((0, 181))), None);
    assert_eq!(api_command_to_command(ApiCommand::MoveServo((0, u16::MAX))), None);
    assert_eq!(
        api_command_to_command(ApiCommand::StreamAudio(true)),
        Some(Command::StreamAudio(true))
    );
    assert_eq!(
        api_command_to_command(ApiCommand::StreamVideo(false)),
        Some(Command::StreamVideo(false))
    );
}

#[test]
fn select_api_command_goes_by_key_and_kind_of_value() {
    assert_eq!(
        select_api_command(Some(("SetFaceExpression", name("Sad"))), None, None, true),
        Some(ApiCommand::SetFaceExpression(name("Sad")))
    );
    assert_eq!(
        select_api_command(None, Some(("MoveServo", (4, 999))), None, true),
        Some(ApiCommand::MoveServo((4, 999)))
    );
    assert_eq!(
        select_api_command(None, None, Some(("StreamAudio", true)), true),
        Some(ApiCommand::StreamAudio(true))
    );
    assert_eq!(
        select_api_command(None, None, Some(("StreamVideo", false)), true),
        Some(ApiCommand::StreamVideo(false))
    );
    assert_eq!(select_api_command(None, None, Some(("StreamAudio", true)), false), None);
    assert_eq!(select_api_command(None, None, Some(("MoveServo", true)), true), None);
    assert_eq!(select_api_command(Some(("StreamAudio", name("true"))), None, None, true), None);
    assert_eq!(select_api_command(None, None, None, true), None);
}

#[test]
fn parse_api_body_accepts_white_space() {
    let body = b" {\n \"MoveServo\" : [ 1 , 90 ] }\r\n";
    assert_eq!(parse_api_body(body), Some(Command::MoveServo(1, 90)));
}

#[test]
fn parse_api_body_rejects_values_of_the_wrong_kind() {
    let bodies: &[&[u8]] = &[
        br#"{"SetFaceExpression":true}"#,
        br#"{"SetFaceExpression":["Happy"]}"#,
        br#"{"MoveServo":"90"}"#,
        br#"{"MoveServo":[1]}"#,
        br#"{"MoveServo":[1,2,3]}"#,
        br#"{"MoveServo":[256,90]}"#,
        br#"{"MoveServo":[-1,90]}"#,
        br#"{"MoveServo":[1,65536]}"#,
        br#"{"MoveServo":{"id":1}}"#,
        br#"{"StreamAudio":"true"}"#,
        br#"{"StreamAudio":1}"#,
        br#"{"StreamVideo":null}"#,
        br#"{"SetFaceExpression":"SeventeenByteName"}"#,
    ];
    for body in bodies {
        assert_eq!(parse_api_body(body), None, "{body:?}");
    }
}

#[test]
fn parse_api_body_rejects_other_than_one_member() {
    let bodies: &[&[u8]] = &[
        b"{}",
        b"[]",
        b"null",
        br#""StreamAudio""#,
        br#"{"StreamAudio":true,"StreamVideo":true}"#,
        br#"{"StreamAudio":true,"StreamAudio":false}"#,
        br#"{"StreamAudio":true} x"#,
        br#"{"StreamAudio":true}{"StreamAudio":true}"#,
        br#"{"StreamAudio":true"#,
        br#"{"StreamAudio":true,}"#,
        br#"{"streamaudio":true}"#,
        br#"{"MenuNextItem":null}"#,
    ];
    for body in bodies {
        assert_eq!(parse_api_body(body), None, "{body:?}");
    }
}

#[test]
fn respond_to_each_route() {
    let accepted = Command::MoveServo(1, 2);
    let cases = [
        (RouteResult::ServeIndex, RESPONSE_200_HTML, ResponseBody::IndexPage, None),
        (
            RouteResult::CommandAccepted(accepted),
            RESPONSE_200_JSON,
            ResponseBody::EmptyObject,
            Some(accepted),
        ),
        (RouteResult::ServeVideoStream, RESPONSE_200_MJPEG, ResponseBody::VideoFrames, None),
        (RouteResult::ServeAudioStream, RESPONSE_200_AUDIO, ResponseBody::AudioFrames, None),
        (RouteResult::BadRequest, RESPONSE_400, ResponseBody::Empty, None),
        (RouteResult::NotFound, RESPONSE_404, ResponseBody::Empty, None),
    ];
    for (route, head, body, command) in cases {
        let response = respond(&route);
        assert_eq!(response.head, head);
        assert_eq!(response.body, body);
        assert_eq!(response.command, command);
    }
}

#[test]
fn answer_to_a_command_carries_it() {
    let raw = b"POST /api/command?x HTTP/1.1\r\n\r\n{\"SetFaceExpression\":\"Surprised\"}";
    let response = answer(raw).unwrap();
    assert_eq!(response.head, RESPONSE_200_JSON);
    assert_eq!(response.command, Some(Command::SetFaceExpression(Expression::Excited)));
}

#[test]
fn answer_to_what_is_no_request_is_none() {
    assert!(answer(b"").is_none());
    assert!(answer(b"\xff\xfe").is_none());
    assert!(answer(b"nonsense\r\n\r\n").is_none());
}

#[test]
fn client_beyond_the_limit_is_sent_503() {
    let mut count = ConnectionCount::new();
    let first = accept_client(&mut count).unwrap_or_else(|_| panic!("first client"));
    let _second = accept_client(&mut count).unwrap_or_else(|_| panic!("second client"));
    match accept_client(&mut count) {
        Ok(_) => panic!("third client must be refused"),
        Err(refusal) => {
            assert_eq!(refusal.head, RESPONSE_503);
            assert_eq!(refusal.body, ResponseBody::Empty);
            assert_eq!(refusal.command, None);
        }
    }
    assert_eq!(ConnectionGuard::active(&count), MAX_CONNECTIONS);
    first.release(&mut count);
    assert!(accept_client(&mut count).is_ok());
}

#[test]
fn video_stream_waits_for_the_first_frame() {
    assert_eq!(video_step(0), StreamStep::Wait(10));
    assert_eq!(video_step(1), StreamStep::SendFrame);
    assert_eq!(video_step(16_384), StreamStep::SendFrame);
}

#[test]
fn audio_stream_waits_after_every_frame() {
    assert_eq!(audio_step(0), StreamStep::Wait(32));
    assert_eq!(audio_step(1), StreamStep::SendFrameThenWait(32));
    assert_eq!(audio_step(1024), StreamStep::SendFrameThenWait(32));
}

#[test]
fn part_head_carries_the_content_length() {
    for len in [0, 7, 9, 10, 99, 100, 305, 16_384, usize::MAX] {
        let expected =
            format!("--frame\r\nContent-Type: image/jpeg\r\nContent-Length: {len}\r\n\r\n");
        assert_eq!(part_head(len).as_bytes(), expected.as_bytes());
    }
    assert!(part_head(usize::MAX).as_bytes().len() <= PART_HEAD_CAPACITY);
    assert_eq!(PART_END, "\r\n");
}

#[test]
fn query_without_version_is_ignored_too() {
    let with = parse_request(b"POST /api/command?a=1\r\n\r\n{}").unwrap();
    let without = parse_request(b"POST /api/command\r\n\r\n{}").unwrap();
    assert_eq!(with, without);
    assert_eq!(with.path, "/api/command");
    assert_eq!(with.body, b"{}");
}
