use gameproto::commands::putobj::{ObjProperties, PutObjCommand, PutOperation};
use gameproto::errors::{CommandField, ProtocolError};
use gameproto::utils::{pad_string, u32_to_buf, u64_to_buf};

#[test]
fn from_u8_test() {
    let input = ObjProperties {
        name: String::from("TestProp"),
        length: 15,
        data: b"{ x: 5, y: 14 }".to_vec(),
    };
    let bytes = input.to_bytes();

    let output = ObjProperties::from_bytes(&bytes[..]).unwrap();

    assert_eq!(input, output);

    // Reading from a plain byte slice binding gives the same result.
    let output: &[u8] = &bytes;
    let tester: ObjProperties = ObjProperties::from_bytes(output).unwrap();
    assert_eq!(input, tester);
}

#[test]
fn test_serialize() {
    // Name is exactly 8 bytes
    let props1 = ObjProperties {
        name: String::from("TestProp"),
        length: 15,
        data: b"{ x: 5, y: 14 }".to_vec(),
    };

    // Name is 4 bytes, padded to 8 bytes
    let props2 = ObjProperties {
        name: String::from("Size"),
        length: 16,
        data: b"{ w: 50, h: 50 }".to_vec(),
    };

    let serialized1 = props1.to_bytes();
    let serialized2 = props2.to_bytes();

    let mut prop1_buf = vec![];
    prop1_buf.append(&mut pad_string(b"TestProp", 8));
    prop1_buf.append(&mut u32_to_buf(15));
    prop1_buf.append(&mut b"{ x: 5, y: 14 }".to_vec());

    assert_eq!(serialized1, prop1_buf);

    let mut prop2_buf = vec![];
    prop2_buf.append(&mut pad_string(b"Size", 8));
    prop2_buf.append(&mut u32_to_buf(16));
    prop2_buf.append(&mut b"{ w: 50, h: 50 }".to_vec());

    assert_eq!(serialized2, prop2_buf);
}

#[test]
fn test_deserialize_properties() {
    // Create 3 test structures with different properties
    let prop1 = ObjProperties {
        name: String::from("Position"),
        length: 64,
        data: vec![1; 64],
    };

    let prop2 = ObjProperties {
        name: String::from("Size"),
        length: 32,
        data: vec![2; 32],
    };

    let prop3 = ObjProperties {
        name: String::from("Texture"),
        length: 8,
        data: vec![3; 8],
    };

    // Serialize them
    let mut data_bytes = vec![];
    data_bytes.append(&mut prop1.to_bytes());
    data_bytes.append(&mut prop2.to_bytes());
    data_bytes.append(&mut prop3.to_bytes());

    // Recreate each object using a shared cursor position
    let (obj1, pos) = ObjProperties::read_at(&data_bytes, 0).unwrap();
    let (obj2, pos) = ObjProperties::read_at(&data_bytes, pos).unwrap();
    let (obj3, _pos) = ObjProperties::read_at(&data_bytes, pos).unwrap();

    // Deserialized objects should be equal to the original structures
    assert_eq!(prop1, obj1);
    assert_eq!(prop2, obj2);
    assert_eq!(prop3, obj3);
}

/// Build a full PUTOBJ frame: 8 identifier bytes, the operation code,
/// the property count, then each property.
fn putobj_frame(operation: u64, props: &[ObjProperties]) -> Vec<u8> {
    let mut frame = pad_string(b"PUTOBJ", 8);
    frame.append(&mut u64_to_buf(operation));
    frame.append(&mut u64_to_buf(props.len() as u64));
    for p in props {
        frame.append(&mut p.to_bytes());
    }
    frame
}

#[test]
fn test_putobj_decode_full_command() {
    let prop = ObjProperties {
        name: String::from("Size"),
        length: 4,
        data: vec![9, 9, 9, 9],
    };
    let frame = putobj_frame(0, std::slice::from_ref(&prop));

    let cmd = PutObjCommand::from_client_message(&frame).unwrap();
    assert_eq!(cmd.id, "PUTOBJ");
    assert!(matches!(cmd.operation, PutOperation::Add));
    assert_eq!(cmd.properties.len(), 1);
    assert_eq!(cmd.properties[0], prop);
}

#[test]
fn test_putobj_operation_codes() {
    let frame_delete = putobj_frame(1, &[]);
    let cmd = PutObjCommand::from_client_message(&frame_delete).unwrap();
    assert!(matches!(cmd.operation, PutOperation::Delete));

    let frame_update = putobj_frame(2, &[]);
    let cmd = PutObjCommand::from_client_message(&frame_update).unwrap();
    assert!(matches!(cmd.operation, PutOperation::Update));
}

#[test]
fn test_putobj_unknown_operation() {
    let frame = putobj_frame(5, &[]);
    let r = PutObjCommand::from_client_message(&frame);
    assert_eq!(r.unwrap_err(), ProtocolError::UnknownOperation);
}

#[test]
fn test_putobj_short_header_malformed() {
    let r = PutObjCommand::from_client_message(b"PUTOBJ");
    assert_eq!(r.unwrap_err(), ProtocolError::MalformedMessage);
}

#[test]
fn test_putobj_truncated_properties() {
    // Header declares two properties but carries none.
    let mut frame = pad_string(b"PUTOBJ", 8);
    frame.append(&mut u64_to_buf(0));
    frame.append(&mut u64_to_buf(2));
    let r = PutObjCommand::from_client_message(&frame);
    assert_eq!(r.unwrap_err(), ProtocolError::TruncatedMessage);
}

#[test]
fn test_property_truncated_data() {
    // The length field promises more data bytes than the buffer holds.
    let mut bytes = pad_string(b"Size", 8);
    bytes.append(&mut u32_to_buf(100));
    bytes.extend_from_slice(&[1, 2, 3]);
    let r = ObjProperties::from_bytes(&bytes);
    assert_eq!(r.unwrap_err(), ProtocolError::TruncatedMessage);
}

#[test]
fn test_property_non_utf8_name_rejected() {
    let mut bytes = vec![0xFFu8, 0xFE, 0, 0, 0, 0, 0, 0];
    bytes.append(&mut u32_to_buf(0));
    match ObjProperties::from_bytes(&bytes) {
        Err(ProtocolError::ValidationError(field, value)) => {
            assert_eq!(field, CommandField::PropertyName);
            assert_eq!(value, vec![0xFFu8, 0xFE]);
        }
        other => panic!("expected a property-name validation error, got {:?}", other),
    }
}

/// A decoded property always has its length field equal to its data
/// length, whatever was declared at encode time.
#[test]
fn test_decoded_property_length_invariant() {
    let prop = ObjProperties {
        name: String::from("Tex"),
        length: 999, // ignored by the encoder, which measures the data
        data: vec![7; 5],
    };
    let bytes = prop.to_bytes();
    let decoded = ObjProperties::from_bytes(&bytes).unwrap();
    assert_eq!(decoded.length, 5);
    assert_eq!(decoded.data.len(), 5);
}
