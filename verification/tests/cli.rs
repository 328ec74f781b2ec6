use bundlrs::cli::{
    almost, login_body, login_endpoint, login_response, maybe, no, paste_address, token_saved, view_paste, yes,
};

#[test]
fn failure_and_success_lines() {
    let e = no("bad");
    assert_eq!((e.code, e.line.as_str()), (1, "\x1b[91m✘ ⎹ bad\x1b[0m"));
    let e = yes("good");
    assert_eq!((e.code, e.line.as_str()), (0, "\x1b[92m✔ ⎹ good\x1b[0m"));
}

#[test]
fn informational_lines() {
    assert_eq!(maybe("hm"), "🛈 ⎹ hm");
    assert_eq!(almost("hm"), "\x1b[94m🛈 ⎹ hm\x1b[0m");
}

#[test]
fn login_request() {
    assert_eq!(login_endpoint("https://stellular.net"), "https://stellular.net/api/v1/auth/login-st");
    assert_eq!(login_body("0000000000"), "{\"uid\":\"0000000000\"}");
    assert_eq!(login_body("a\"b"), "{\"uid\":\"a\\\"b\"}");
}

#[test]
fn login_outcomes() {
    assert!(login_response(200).is_none());
    let e = login_response(401).unwrap();
    assert_eq!(e.code, 1);
    assert_eq!(e.line, "\x1b[91m✘ ⎹ Failed to send request! Token may be invalid or the server may be unreachable.\x1b[0m");
    assert_eq!(token_saved(true).line, "\x1b[92m✔ ⎹ Token written to configuration!\x1b[0m");
    let e = token_saved(false);
    assert_eq!((e.code, e.line.as_str()), (1, "\x1b[91m✘ ⎹ Failed to write token!\x1b[0m"));
    let e = view_paste("pub/info", Some(404), "");
    assert_eq!((e.code, e.line.as_str()), (1, "\x1b[91m✘ ⎹ pub/info\x1b[0m"));
    let e = view_paste("pub/info", None, "");
    assert_eq!(e.code, 1);
}

#[test]
fn viewing_a_paste_shows_it() {
    assert_eq!(paste_address("https://stellular.net", "pub/info"), "https://stellular.net/pub/info");
    let e = view_paste("pub/info", Some(200), "the paste");
    assert_eq!((e.code, e.line.as_str()), (0, "the paste"));
}

#[test]
fn login_body_escapes_like_json() {
    assert_eq!(login_body("a\\b\n\t\r\u{8}\u{c}\u{1}\u{1f}/é"), "{\"uid\":\"a\\\\b\\n\\t\\r\\b\\f\\u0001\\u001f/é\"}");
    for s in ["", "x\"y", "\u{0}\u{7f}", "ünï"] {
        let expected = format!("{{\"uid\":{}}}", serde_json::to_string(s).unwrap());
        assert_eq!(login_body(s), expected);
    }
}
