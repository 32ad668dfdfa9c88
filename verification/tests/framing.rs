use lxi_client::{decode_reply, frame_command, remove_newline, Error};

#[test]
fn strip_crlf() {
    let mut text = String::from("X\r\n");
    remove_newline(&mut text);
    assert_eq!(text, "X");
}

#[test]
fn strip_bare_lf() {
    let mut text = String::from("X\n");
    remove_newline(&mut text);
    assert_eq!(text, "X");
}

#[test]
fn strip_empty_line() {
    let mut text = String::from("\n");
    remove_newline(&mut text);
    assert_eq!(text, "");
}

#[test]
fn strip_nothing_without_terminator() {
    let mut text = String::from("X");
    remove_newline(&mut text);
    assert_eq!(text, "X");

    let mut empty = String::new();
    remove_newline(&mut empty);
    assert_eq!(empty, "");
}

#[test]
fn strip_keeps_lone_carriage_return() {
    let mut text = String::from("X\r");
    remove_newline(&mut text);
    assert_eq!(text, "X\r");
}

#[test]
fn strip_exactly_one_terminator() {
    let mut text = String::from("X\n\n");
    remove_newline(&mut text);
    assert_eq!(text, "X\n");

    let mut doubled = String::from("X\r\r\n");
    remove_newline(&mut doubled);
    assert_eq!(doubled, "X\r");
}

#[test]
fn frame_appends_strict_terminator() {
    assert_eq!(frame_command("IDN?"), "IDN?\r\n");
    assert_eq!(frame_command(""), "\r\n");
}

#[test]
fn decode_strict_terminator() {
    assert_eq!(decode_reply(b"X\r\n".to_vec()).unwrap(), "X");
}

#[test]
fn decode_tolerates_bare_lf() {
    assert_eq!(decode_reply(b"X\n".to_vec()).unwrap(), "X");
}

#[test]
fn decode_empty_line_is_empty_string() {
    assert_eq!(decode_reply(b"\n".to_vec()).unwrap(), "");
}

#[test]
fn decode_keeps_data_without_terminator() {
    assert_eq!(decode_reply(b"PART".to_vec()).unwrap(), "PART");
    assert_eq!(decode_reply(Vec::new()).unwrap(), "");
}

#[test]
fn decode_invalid_utf8_is_lossy_not_transport() {
    let reply = vec![0xff, 0xfe, b'\n'];
    match decode_reply(reply) {
        Err(Error::ResponseDataInvalid(text)) => {
            assert_eq!(text, "\u{fffd}\u{fffd}\n");
        }
        other => panic!("expected ResponseDataInvalid, got {:?}", other),
    }
}

#[test]
fn decode_invalid_utf8_mid_line() {
    let reply = vec![b'A', 0xc3, b'\r', b'\n'];
    match decode_reply(reply) {
        Err(Error::ResponseDataInvalid(text)) => {
            assert_eq!(text, "A\u{fffd}\r\n");
        }
        other => panic!("expected ResponseDataInvalid, got {:?}", other),
    }
}

#[test]
fn round_trip_through_terminator_handling() {
    let framed = frame_command("MEAS:VOLT:DC?");
    assert_eq!(framed.as_bytes(), b"MEAS:VOLT:DC?\r\n");
    assert_eq!(decode_reply(framed.into_bytes()).unwrap(), "MEAS:VOLT:DC?");
}
