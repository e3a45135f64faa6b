use tvdata_rs::{format_session_id, frame_payload, parse_framed_messages, Error};

#[test]
fn parses_concatenated_websocket_frames() {
    let frames = parse_framed_messages("~m~9~m~{\"m\":\"a\"}~m~9~m~{\"m\":\"b\"}").unwrap();

    assert_eq!(frames, vec![r#"{"m":"a"}"#, r#"{"m":"b"}"#]);
}

#[test]
fn framing_then_parsing_gives_back_the_payloads() {
    let a = frame_payload("{\"m\":\"quote_create_session\",\"p\":[\"qs_1\"]}");
    let b = frame_payload("héllo ~m~ wörld");
    assert_eq!(a, "~m~41~m~{\"m\":\"quote_create_session\",\"p\":[\"qs_1\"]}");
    let both = format!("{a}{b}");
    let frames = parse_framed_messages(&both).unwrap();
    assert_eq!(
        frames,
        vec!["{\"m\":\"quote_create_session\",\"p\":[\"qs_1\"]}", "héllo ~m~ wörld"]
    );
}

#[test]
fn frame_length_counts_bytes() {
    assert_eq!(frame_payload("é"), "~m~2~m~é");
    assert_eq!(frame_payload(""), "~m~0~m~");
    assert_eq!(parse_framed_messages("~m~0~m~").unwrap(), vec![""]);
}

#[test]
fn empty_frame_has_no_messages() {
    assert!(parse_framed_messages("").unwrap().is_empty());
}

#[test]
fn text_before_a_marker_is_skipped() {
    assert_eq!(parse_framed_messages("junk~m~~m~2~m~hi").unwrap(), vec!["hi"]);
}

#[test]
fn length_may_carry_a_plus_sign() {
    assert_eq!(parse_framed_messages("~m~+2~m~hi").unwrap(), vec!["hi"]);
}

fn protocol_message(frame: &str) -> &'static str {
    match parse_framed_messages(frame) {
        Err(Error::Protocol(message)) => message,
        other => panic!("unexpected result {other:?}"),
    }
}

#[test]
fn framing_faults_are_reported() {
    assert_eq!(protocol_message("~m~12"), "missing websocket frame length separator");
    assert_eq!(protocol_message("~m~x~m~a"), "invalid websocket frame length");
    assert_eq!(protocol_message("~m~~m~a"), "invalid websocket frame length");
    assert_eq!(protocol_message("~m~-1~m~a"), "invalid websocket frame length");
    assert_eq!(
        protocol_message("~m~99999999999999999999999~m~a"),
        "invalid websocket frame length"
    );
    assert_eq!(protocol_message("~m~5~m~ab"), "declared websocket frame length exceeds payload");
    assert_eq!(protocol_message("abc"), "unexpected websocket frame prefix");
    assert_eq!(protocol_message("~m~1~m~ab"), "unexpected websocket frame prefix");
}

#[test]
fn session_ids_use_sixteen_hex_digits() {
    assert_eq!(format_session_id("cs", 255), "cs_00000000000000ff");
    assert_eq!(format_session_id("qs", 0), "qs_0000000000000000");
    assert_eq!(format_session_id("x", u64::MAX), "x_ffffffffffffffff");
}

#[test]
fn a_length_ending_inside_a_character_is_flagged() {
    assert!(tvdata_rs::transport::scan_framed_messages("~m~1~m~é").is_none());
    assert!(tvdata_rs::transport::scan_framed_messages("~m~2~m~é").is_some());
}
