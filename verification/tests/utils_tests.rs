use gameproto::errors::ProtocolError;
use gameproto::utils::{
    buf_to_u32, buf_to_u64, frame, get_messageblocks_groups, pad_string, result_from_condition,
    result_from_predicate, trim_vec_end, u32_to_buf, u32_to_usize, u64_to_buf, usize_to_u32,
    vec_to_trimmed_string,
};

#[test]
fn utils_test_messageblock_grouping() {
    let test_vec = b"TEST&aaaaaaaa&bbbbbb&ccc&xxx";

    let t_one = get_messageblocks_groups(test_vec).unwrap();

    let mapped: Vec<String> = t_one
        .iter()
        .map(|v| String::from_utf8(v.to_vec()).unwrap())
        .collect();

    assert_eq!(&mapped[0], "TEST");
    assert_eq!(&mapped[1], "aaaaaaaa");
    assert_eq!(&mapped[2], "bbbbbb");
    assert_eq!(&mapped[3], "ccc");
}

#[test]
fn commands_test_messageblock_grouping() {
    let test_vec = b"TEST&aaaaaaaa&bbbbbb&ccc&xxx";

    let t_one = gameproto::commands::get_messageblocks_groups(test_vec).unwrap();

    let mapped: Vec<String> = t_one
        .iter()
        .map(|v| String::from_utf8(v.to_vec()).unwrap())
        .collect();

    assert_eq!(&mapped[0], "TEST");
    assert_eq!(&mapped[1], "aaaaaaaa");
    assert_eq!(&mapped[2], "bbbbbb");
    assert_eq!(&mapped[3], "ccc");
}

#[test]
fn test_frame_trailing_tail_dropped() {
    // The trailing "xxx" is not closed by a delimiter, so only four
    // frames come out.
    let groups = frame(b"TEST&aaaaaaaa&bbbbbb&ccc&xxx", b'&');
    assert_eq!(groups.len(), 4);
}

#[test]
fn test_frame_empty_groups() {
    let groups = frame(b"a&&b&", b'&');
    assert_eq!(groups.len(), 3);
    assert_eq!(groups[0], b"a".to_vec());
    assert_eq!(groups[1], Vec::<u8>::new());
    assert_eq!(groups[2], b"b".to_vec());
}

#[test]
fn utils_test_pad_string() {
    let test_string = pad_string(b"qwerty\0", 7);

    assert_eq!(test_string, b"qwerty\0");
}

#[test]
fn commands_test_pad_string() {
    let test_string = pad_string(b"qwerty\0", 7);

    assert_eq!(test_string, b"qwerty\0");
}

#[test]
fn utils_test_trim_string() {
    let test_string = trim_vec_end(b"qwerty\0\0\0");
    assert_eq!(test_string, b"qwerty");

    let test_string = trim_vec_end(b"qwerty");
    assert_eq!(test_string, b"qwerty");
}

#[test]
fn commands_test_trim_string() {
    let test_string = trim_vec_end(b"qwerty\0\0\0");

    assert_eq!(test_string, b"qwerty");
}

#[test]
fn test_vec_trim_tostring() {
    let test_string = vec_to_trimmed_string(b"ICanHazPadding\0\0\0").unwrap();
    assert_eq!(test_string, "ICanHazPadding");

    let test_string = vec_to_trimmed_string(b"NoPadding").unwrap();
    assert_eq!(test_string, "NoPadding");
}

#[test]
fn test_buf_to_u32() {
    // Transformation function is using LSB
    let nb_buf: [u8; 4] = [15, 0, 0, 0];
    let res = buf_to_u32(nb_buf);
    assert_eq!(res, 15);

    let nb_buf: [u8; 4] = [15, 255, 0, 0];
    let res = buf_to_u32(nb_buf);
    assert_eq!(res, 0xFF0F);

    let nb_buf: [u8; 4] = [0xAA, 0xAA, 0xAA, 0xAA];
    let res = buf_to_u32(nb_buf);
    assert_eq!(res, 0xAAAAAAAA);
}

#[test]
fn test_u32_to_buf() {
    let buf = u32_to_buf(55);
    assert_eq!(buf, [55, 0, 0, 0]);

    let buf = u32_to_buf(0xAABBCCDD);
    assert_eq!(buf, [0xDD, 0xCC, 0xBB, 0xAA]);
}

#[test]
fn test_buf_to_u64() {
    let nb_buf: [u8; 8] = [2, 1, 0, 0, 0, 0, 0, 0];
    assert_eq!(buf_to_u64(nb_buf), 0x0102);

    let nb_buf: [u8; 8] = [0, 0, 0, 0, 0, 0, 0, 1];
    assert_eq!(buf_to_u64(nb_buf), 1u64 << 56);
}

#[test]
fn test_u64_to_buf() {
    let buf = u64_to_buf(0x0102030405060708);
    assert_eq!(buf, [8, 7, 6, 5, 4, 3, 2, 1]);
}

#[test]
fn test_u32_to_usize() {
    // The u32_to_usize is meant as a shorthand so this checks that the
    // implementation stays valid.
    let nb: u32 = 55;
    let test: usize = u32_to_usize(nb);
    assert_eq!(nb, test.try_into().unwrap());
}

#[test]
fn test_usize_to_u32() {
    let nb: usize = 500;
    let test: u32 = usize_to_u32(nb).unwrap();

    assert_eq!(nb, test.try_into().unwrap());
}

#[test]
#[should_panic]
fn test_usize_to_u32_failures() {
    let nb: usize = 0x8000000000000000;
    let test: u32 = usize_to_u32(nb).unwrap();
    assert_eq!(nb, test.try_into().unwrap());
}

#[test]
fn test_usize_to_u32_overflow_error() {
    let nb: usize = (u32::MAX as usize) + 1;
    assert_eq!(usize_to_u32(nb), Err(ProtocolError::NumericOverflow));
}

#[test]
fn test_result_from_condition() {
    let error_test = result_from_condition(false, "GOT ERROR");
    assert_eq!(error_test.is_err(), true);
    assert_eq!(error_test.err().unwrap(), "GOT ERROR");

    let ok_test = result_from_condition(true, "GOT ERROR");
    assert_eq!(ok_test.is_ok(), true);
}

#[test]
fn test_result_from_predicate() {
    let error_test = result_from_predicate(|| false, "GOT ERROR");
    assert_eq!(error_test.is_err(), true);
    assert_eq!(error_test.err().unwrap(), "GOT ERROR");

    let ok_test = result_from_predicate(|| true, "GOT ERROR");
    assert_eq!(ok_test.is_ok(), true);
}
