use gameproto::commands::hello::{validate_command, HelloCommand};
use gameproto::errors::{CommandField, ProtocolError};
use gameproto::utils::pad_string;

/// Tests that deserializing a structure generates the correct fields.
/// The message field keeps the frame's trailing padding: the message is
/// everything after the fixed header, with no further trimming.
#[test]
fn hello_test_hello_deserialize() {
    let mut cmd: Vec<u8> = Vec::new();

    let mut one = pad_string(b"HELO", 8);
    let mut two = pad_string(b"TestUsername", 32);
    let mut three = pad_string(b"Super Message", 64);

    cmd.append(&mut one);
    cmd.append(&mut two);
    cmd.append(&mut three);

    let test = HelloCommand::deserialize(&cmd).unwrap();

    assert_eq!(test.id, "HELO");
    assert_eq!(test.user, "TestUsername");
    let expected_msg = String::from_utf8(pad_string(b"Super Message", 64)).unwrap();
    assert_eq!(test.msg, expected_msg);
}

/// Tests that serializing the structure generates the correct data with
/// the appropriate padding and field sizes.
#[test]
fn hello_test_hello_serialize() {
    let test = HelloCommand {
        id: String::from("HELO"),
        user: String::from("TestUsername"),
        msg: String::from("Super Message"),
    };

    let result = test.serialize();

    let one = pad_string(b"HELO", 8);
    let two = pad_string(b"TestUsername", 32);
    let three = b"Super Message".to_vec();

    let result_one: &[u8] = &result[0..8];
    assert_eq!(result_one.to_vec(), one);

    let result_two: &[u8] = &result[8..40];
    assert_eq!(result_two.to_vec(), two);

    let result_three: &[u8] = &result[40..];
    assert_eq!(result_three.to_vec(), three);
}

#[test]
fn commands_test_hello_serialize() {}

#[test]
fn test_hello_serde() {}

/// Tests that building from existing information generates the correct
/// structure fields.
#[test]
fn test_build_hello_command() {
    let test = HelloCommand::from_info("SuperUser", "SuperMessage");

    assert_eq!(test.user, String::from("SuperUser"));
    assert_eq!(test.msg, String::from("SuperMessage"));
}

/// Tests that two commands with the same username and message compare
/// as equals.
#[test]
fn test_hello_command_equality() {
    let cmd_one = HelloCommand::from_info("SuperUser", "SuperMessage");
    let cmd_two = HelloCommand::from_info("SuperUser", "SuperMessage");

    assert_eq!(cmd_one, cmd_two);
}

/// Tests that `validate_command` generates errors when presented with
/// invalid input.
#[test]
fn test_validate_command() {
    let mut test = HelloCommand::from_info("HELO", "svcsdgdrfrg");

    // Test for wrong ID
    test.id = String::from("AAA");
    validate_command(&test).expect_err("ID is invalid");

    test.id = String::from("HELO");

    // Test for non-ascii username
    test.user = String::from("Gordon Freeman \u{039B}");

    validate_command(&test).expect_err("Username contains non ASCII characters");

    test.user = String::from("Gordon Freeman");

    // Test for non-ascii message
    test.msg = String::from("HIDDEN MESSAGE\u{03A8}");
    validate_command(&test).expect_err("Message contains non ASCII characters.");
}

/// A decode of an encode reproduces the command exactly.
#[test]
fn test_hello_round_trip() {
    let original = HelloCommand::from_info("PlayerOne", "hello there");
    let encoded = original.serialize();
    let decoded = HelloCommand::deserialize(&encoded).unwrap();
    assert_eq!(decoded, original);
}

/// A non-ASCII user fails deserialization with a validation error that
/// names the user field.
#[test]
fn test_hello_deserialize_rejects_non_ascii_user() {
    let cmd = HelloCommand {
        id: String::from("HELO"),
        user: String::from("Gordon Freeman \u{039B}"),
        msg: String::from("ok"),
    };
    let encoded = cmd.serialize();
    match HelloCommand::deserialize(&encoded) {
        Err(ProtocolError::ValidationError(field, _)) => {
            assert_eq!(field, CommandField::User);
        }
        other => panic!("expected a user validation error, got {:?}", other),
    }
}

/// A buffer shorter than the fixed header is malformed.
#[test]
fn test_hello_deserialize_short_buffer() {
    let r = HelloCommand::deserialize(b"HELO");
    assert_eq!(r, Err(ProtocolError::MalformedMessage));
}

/// A wrong identifier fails validation with the identifier field and
/// its bytes.
#[test]
fn test_hello_deserialize_wrong_id() {
    let mut cmd: Vec<u8> = Vec::new();
    cmd.append(&mut pad_string(b"NOPE", 8));
    cmd.append(&mut pad_string(b"SomeUser", 32));
    cmd.extend_from_slice(b"hi");

    match HelloCommand::deserialize(&cmd) {
        Err(ProtocolError::ValidationError(field, value)) => {
            assert_eq!(field, CommandField::Id);
            assert_eq!(value, b"NOPE".to_vec());
        }
        other => panic!("expected an id validation error, got {:?}", other),
    }
}

/// A non-ASCII message fails validation with the message field.
#[test]
fn test_hello_deserialize_rejects_non_ascii_message() {
    let mut cmd: Vec<u8> = Vec::new();
    cmd.append(&mut pad_string(b"HELO", 8));
    cmd.append(&mut pad_string(b"SomeUser", 32));
    cmd.extend_from_slice("caf\u{00E9}".as_bytes());

    match HelloCommand::deserialize(&cmd) {
        Err(ProtocolError::ValidationError(field, _)) => {
            assert_eq!(field, CommandField::Message);
        }
        other => panic!("expected a message validation error, got {:?}", other),
    }
}
