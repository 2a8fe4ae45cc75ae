use gameproto::messageblocks::{generate_default_structs, Userdata};
use gameproto::utils::pad_string;

fn identity_block(user: &str) -> Vec<u8> {
    let mut block = pad_string(b"ID", 8);
    block.append(&mut pad_string(user.as_bytes(), 32));
    block
}

#[test]
fn test_userdata_parse_ok() {
    let block = identity_block("Alyx");
    let parsed = Userdata::parse(&block).unwrap();
    // The 32 user bytes are taken as they stand, NUL padding included.
    assert_eq!(
        parsed.user_id,
        String::from_utf8(pad_string(b"Alyx", 32)).unwrap()
    );
}

#[test]
fn test_userdata_parse_rejects_marker() {
    let mut block = identity_block("Alyx");
    block[12] = b'&';
    let r = Userdata::parse(&block);
    assert_eq!(r.unwrap_err(), "Parse error.");
}

#[test]
fn test_userdata_parse_rejects_short_block() {
    let r = Userdata::parse(b"ID\0\0\0\0\0\0tooshort");
    assert_eq!(r.unwrap_err(), "Parse error.");
}

#[test]
fn test_userdata_parse_rejects_wrong_ident() {
    let mut block = pad_string(b"XX", 8);
    block.append(&mut pad_string(b"Alyx", 32));
    let r = Userdata::parse(&block);
    assert_eq!(r.unwrap_err(), "Parse error.");
}

#[test]
fn test_generate_default_structs() {
    let (user, misc) = generate_default_structs();
    assert_eq!(user.user_id, "Default");
    assert_eq!(misc.id, "DEF");
}
