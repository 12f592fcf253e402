//! Tests of the wire protocol codec: byte-exact encoding, decoding of each
//! message kind, and the protocol errors.

use g_cli::comms::{CommsError, MessageFromLV, MessageToLV};

fn fresh_buffer() -> Vec<u8> {
    vec![0u8; 9000]
}

fn buffer_with(input: &str) -> Vec<u8> {
    let mut buffer = fresh_buffer();
    buffer[0..input.len()].copy_from_slice(input.as_bytes());
    buffer
}

#[test]
fn single_argument_message_to_buffer() {
    let mut buffer = fresh_buffer();
    let args = vec![String::from("Test1")];

    let message = MessageToLV::ARGS(args);

    let size = message.to_buffer(&mut buffer);

    let expected = "\x00\x00\x00\x09ARGSTest1";

    assert_eq!(size, 9 + 4); //9 plus the 4 for length.
    assert_eq!(&buffer[0..size], expected.as_bytes());
}

#[test]
fn multiple_argument_message_to_buffer() {
    let mut buffer = fresh_buffer();
    let args = vec![String::from("Test1"), String::from("Test2")];

    let message = MessageToLV::ARGS(args);

    let size = message.to_buffer(&mut buffer);

    let expected = "\x00\x00\x00\x0FARGSTest1\tTest2";

    assert_eq!(size, 15 + 4); //9 plus the 4 for length.
    assert_eq!(&buffer[0..size], expected.as_bytes());
}

#[test]
fn working_directory_to_buffer() {
    let mut buffer = fresh_buffer();
    let dir = String::from("C:\\test");

    let message = MessageToLV::CCWD(dir);

    let size = message.to_buffer(&mut buffer);

    let expected = "\x00\x00\x00\x0BCCWDC:\\test";

    assert_eq!(size, 11 + 4); //9 plus the 4 for length.
    assert_eq!(&buffer[0..size], expected.as_bytes());
}

#[test]
fn empty_argument_list_to_buffer() {
    let mut buffer = fresh_buffer();
    let message = MessageToLV::ARGS(vec![]);

    let size = message.to_buffer(&mut buffer);

    assert_eq!(size, 8);
    assert_eq!(&buffer[0..size], "\x00\x00\x00\x04ARGS".as_bytes());
}

#[test]
fn unicode_argument_to_buffer() {
    let mut buffer = fresh_buffer();
    let message = MessageToLV::ARGS(vec![String::from("HÜll°")]);

    let size = message.to_buffer(&mut buffer);

    // The payload is the UTF-8 bytes of the argument: 7 of them.
    assert_eq!(size, 4 + 4 + 7);
    assert_eq!(&buffer[8..size], "HÜll°".as_bytes());
}

#[test]
fn exit_command_from_buffer() {
    let buffer = buffer_with("\x00\x00\x00\x07EXIT123");

    let message = MessageFromLV::from_buffer(&buffer);

    assert_eq!(message.unwrap(), MessageFromLV::EXIT(123));
}

#[test]
fn negative_exit_command_from_buffer() {
    let buffer = buffer_with("\x00\x00\x00\x09EXIT-1000");

    let message = MessageFromLV::from_buffer(&buffer);

    assert_eq!(message.unwrap(), MessageFromLV::EXIT(-1000));
}

#[test]
fn exit_command_invalid_string_from_buffer() {
    let buffer = buffer_with("\x00\x00\x00\x07EXIT1.3");

    let message = MessageFromLV::from_buffer(&buffer);

    match message {
        Ok(_) => panic!("Fail"),
        Err(CommsError::ExitCodeStringNotParsable(string)) => {
            assert_eq!(string, String::from("1.3"))
        }
        Err(_) => panic!("Fail"),
    }
}

#[test]
fn exit_command_overflowing_code_from_buffer() {
    let buffer = buffer_with("\x00\x00\x00\x0EEXIT4294967296");

    let message = MessageFromLV::from_buffer(&buffer);

    match message {
        Err(CommsError::ExitCodeStringNotParsable(string)) => {
            assert_eq!(string, String::from("4294967296"))
        }
        _ => panic!("Fail"),
    }
}

#[test]
fn error_on_unknown_id() {
    let buffer = buffer_with("\x00\x00\x00\x07EXTT123");

    let message = MessageFromLV::from_buffer(&buffer);

    match message {
        Err(CommsError::UnknownMessageId(id)) => assert_eq!(id, String::from("EXTT")),
        _ => panic!("Not ID Error"),
    }
}

#[test]
fn output_from_buffer() {
    let buffer = buffer_with("\x00\x00\x00\x11OUTPHello, World\n");

    let message = MessageFromLV::from_buffer(&buffer);

    assert_eq!(
        message.unwrap(),
        MessageFromLV::OUTP(String::from("Hello, World\n"))
    );
}

#[test]
fn error_output_from_buffer() {
    let buffer = buffer_with("\x00\x00\x00\x11SERRHello, World\n");

    let message = MessageFromLV::from_buffer(&buffer);

    assert_eq!(
        message.unwrap(),
        MessageFromLV::SERR(String::from("Hello, World\n"))
    );
}

#[test]
fn unicode_output_from_buffer() {
    let mut buffer = fresh_buffer();
    let payload = "HÜll°";
    buffer[3] = (4 + payload.len()) as u8;
    buffer[4..8].copy_from_slice(b"OUTP");
    buffer[8..8 + payload.len()].copy_from_slice(payload.as_bytes());

    let message = MessageFromLV::from_buffer(&buffer);

    assert_eq!(message.unwrap(), MessageFromLV::OUTP(String::from(payload)));
}

#[test]
fn error_on_undersized_length() {
    // A declared length below 4 cannot even hold the tag.
    let buffer = buffer_with("\x00\x00\x00\x03EXI");

    let message = MessageFromLV::from_buffer(&buffer);

    assert_eq!(message.unwrap_err(), CommsError::SizeParameterInvalid);
}

#[test]
fn error_on_oversized_length() {
    // A declared length beyond the buffer is a hard error, not truncation.
    let mut buffer = fresh_buffer();
    buffer[0..4].copy_from_slice(&9000u32.to_be_bytes());
    buffer[4..8].copy_from_slice(b"OUTP");

    let message = MessageFromLV::from_buffer(&buffer);

    assert_eq!(message.unwrap_err(), CommsError::SizeParameterInvalid);
}

#[test]
fn largest_frame_is_accepted() {
    // Length 8996 fills the 9000-byte buffer exactly.
    let mut buffer = fresh_buffer();
    buffer[0..4].copy_from_slice(&8996u32.to_be_bytes());
    buffer[4..8].copy_from_slice(b"OUTP");
    for slot in buffer.iter_mut().skip(8) {
        *slot = b'x';
    }

    let message = MessageFromLV::from_buffer(&buffer);

    match message.unwrap() {
        MessageFromLV::OUTP(text) => assert_eq!(text.len(), 8992),
        _ => panic!("wrong message kind"),
    }
}

#[test]
fn error_on_invalid_utf8_tag() {
    let mut buffer = fresh_buffer();
    buffer[3] = 5;
    buffer[4] = 0xFF;
    buffer[5] = 0xFE;
    buffer[6] = b'X';
    buffer[7] = b'T';
    buffer[8] = b'1';

    let message = MessageFromLV::from_buffer(&buffer);

    assert_eq!(message.unwrap_err(), CommsError::MessageIdNotValidUTF8);
}

#[test]
fn error_on_invalid_utf8_contents() {
    let mut buffer = fresh_buffer();
    buffer[3] = 6;
    buffer[4..8].copy_from_slice(b"OUTP");
    buffer[8] = 0xFF;
    buffer[9] = 0xFE;

    let message = MessageFromLV::from_buffer(&buffer);

    assert_eq!(message.unwrap_err(), CommsError::MessageContentsNotValidUTF8);
}

#[test]
fn contents_checked_before_tag_dispatch() {
    // Even with an unknown tag, bad payload text is reported first.
    let mut buffer = fresh_buffer();
    buffer[3] = 5;
    buffer[4..8].copy_from_slice(b"EXTT");
    buffer[8] = 0xFF;

    let message = MessageFromLV::from_buffer(&buffer);

    assert_eq!(message.unwrap_err(), CommsError::MessageContentsNotValidUTF8);
}
