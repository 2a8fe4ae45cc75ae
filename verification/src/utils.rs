//! Binary codec primitives: NUL padding and trimming of fixed-width
//! fields, little-endian integer encoding, checked narrowing casts, and
//! the delimiter-based message framer.

use vstd::prelude::*;
use vstd::slice::{slice_index_get, slice_subrange, slice_to_vec};

use crate::errors::ProtocolError;

verus! {

use vstd::bytes::{
    spec_u32_from_le_bytes, spec_u32_to_le_bytes, spec_u64_from_le_bytes, spec_u64_to_le_bytes,
};
use vstd::utf8::{decode_utf8, valid_utf8};

/// The bytes of `s` padded with NUL on the right to exactly `n` bytes;
/// longer input is truncated to `n` bytes.
pub open spec fn spec_pad(s: Seq<u8>, n: nat) -> Seq<u8> {
    Seq::new(n, |i: int| if i < s.len() { s[i] } else { 0u8 })
}

/// `s` with every trailing NUL byte removed; NUL bytes before the last
/// non-zero byte are preserved.
pub open spec fn spec_trim(s: Seq<u8>) -> Seq<u8>
    decreases s.len(),
{
    if s.len() == 0 {
        s
    } else if s.last() == 0u8 {
        spec_trim(s.drop_last())
    } else {
        s
    }
}

/// Pad a buffer to a specific length of bytes.
pub fn pad_string(buf: &[u8], padlen: usize) -> (result: Vec<u8>)
    ensures
        result@ == spec_pad(buf@, padlen as nat),
        result@.len() == padlen,
{
    let mut result: Vec<u8> = Vec::new();
    let mut i: usize = 0;
    while i < padlen
        invariant
            i <= padlen,
            result@.len() == i,
            forall|j: int| 0 <= j < i ==> result@[j] == spec_pad(buf@, padlen as nat)[j],
        decreases padlen - i,
    {
        if i < buf.len() {
            result.push(*slice_index_get(buf, i));
        } else {
            result.push(0);
        }
        i += 1;
    }
    proof {
        assert(result@ =~= spec_pad(buf@, padlen as nat));
    }
    result
}

/// Remove the trailing NUL bytes of a buffer.
pub fn trim_vec_end(buf: &[u8]) -> (res: Vec<u8>)
    ensures
        res@ == spec_trim(buf@),
{
    let mut end: usize = buf.len();
    proof {
        assert(buf@.take(end as int) =~= buf@);
    }
    while end > 0 && *slice_index_get(buf, end - 1) == 0
        invariant
            end <= buf.len(),
            spec_trim(buf@) == spec_trim(buf@.take(end as int)),
        decreases end,
    {
        proof {
            assert(buf@.take(end as int).last() == buf@[end - 1]);
            assert(buf@.take(end as int).drop_last() =~= buf@.take(end - 1));
        }
        end -= 1;
    }
    proof {
        if end > 0 {
            assert(buf@.take(end as int).last() == buf@[end - 1]);
        }
        assert(spec_trim(buf@.take(end as int)) == buf@.take(end as int));
    }
    slice_to_vec(slice_subrange(buf, 0, end))
}

/// Trimming undoes padding: for content without NUL bytes that fits in
/// the padded width, `spec_trim(spec_pad(s, n)) == s`.
pub proof fn lemma_trim_pad_inverse(s: Seq<u8>, n: nat)
    requires
        s.len() <= n,
        forall|i: int| 0 <= i < s.len() ==> s[i] != 0u8,
    ensures
        spec_trim(spec_pad(s, n)) == s,
    decreases n,
{
    if n == s.len() {
        assert(spec_pad(s, n) =~= s);
        lemma_trim_no_trailing_zero(s);
    } else {
        assert(spec_pad(s, n).last() == 0u8);
        assert(spec_pad(s, n).drop_last() =~= spec_pad(s, (n - 1) as nat));
        lemma_trim_pad_inverse(s, (n - 1) as nat);
    }
}

/// A sequence whose last byte is not NUL (or which is empty) is left
/// unchanged by trimming.
pub proof fn lemma_trim_no_trailing_zero(s: Seq<u8>)
    requires
        s.len() == 0 || s.last() != 0u8,
    ensures
        spec_trim(s) == s,
{
}

/// Byte-for-byte equality of two buffers.
pub fn bytes_equal(a: &[u8], b: &[u8]) -> (r: bool)
    ensures
        r == (a@ == b@),
{
    if a.len() != b.len() {
        return false;
    }
    let mut i: usize = 0;
    while i < a.len()
        invariant
            i <= a@.len(),
            a@.len() == b@.len(),
            forall|j: int| 0 <= j < i ==> a@[j] == b@[j],
        decreases a@.len() - i,
    {
        if *slice_index_get(a, i) != *slice_index_get(b, i) {
            return false;
        }
        i += 1;
    }
    proof {
        assert(a@ =~= b@);
    }
    true
}

/// An ASCII character other than NUL encodes to a non-NUL byte.
pub proof fn lemma_ascii_nonzero_bytes(chars: Seq<char>)
    requires
        vstd::utf8::is_ascii_chars(chars),
        forall|i: int| 0 <= i < chars.len() ==> chars[i] != '\0',
    ensures
        forall|i: int|
            0 <= i < chars.len() ==> #[trigger] vstd::utf8::encode_utf8(chars)[i] != 0u8,
        vstd::utf8::encode_utf8(chars).len() == chars.len(),
{
    broadcast use vstd::utf8::group_utf8_lib;

    assert forall|i: int| 0 <= i < chars.len() implies #[trigger] vstd::utf8::encode_utf8(
        chars,
    )[i] != 0u8 by {
        let c = chars[i];
        assert(vstd::utf8::encode_utf8(chars)[i] == c as u8);
        assert((c as nat) < 128);
        if c as u8 == 0u8 {
            assert(c as u32 == 0u32);
            vstd::utf8::char_u32_cast(c, 0u32);
            assert('\0' as u32 == 0u32);
            vstd::utf8::char_u32_cast('\0', 0u32);
            assert(c == '\0');
        }
    }
}

/// The complete frames of `s` under delimiter `d`: each run of bytes
/// closed by a delimiter becomes one frame, without the delimiter; a
/// partial tail after the last delimiter yields no frame.
pub open spec fn spec_frames(s: Seq<u8>, d: u8) -> Seq<Seq<u8>>
    decreases s.len(),
{
    if s.len() == 0 {
        Seq::empty()
    } else if s.last() == d {
        spec_frames(s.drop_last(), d).push(spec_frame_tail(s.drop_last(), d))
    } else {
        spec_frames(s.drop_last(), d)
    }
}

/// The bytes of `s` after its last delimiter: the partial tail that the
/// framer retains rather than emits.
pub open spec fn spec_frame_tail(s: Seq<u8>, d: u8) -> Seq<u8>
    decreases s.len(),
{
    if s.len() == 0 {
        Seq::empty()
    } else if s.last() == d {
        Seq::empty()
    } else {
        spec_frame_tail(s.drop_last(), d).push(s.last())
    }
}

/// Split a byte stream into the frames closed by `delimiter`; the
/// delimiter is excluded from every frame and an unterminated tail is
/// dropped. Stateless: each call scans only the bytes it is given.
pub fn frame(data: &[u8], delimiter: u8) -> (result: Vec<Vec<u8>>)
    ensures
        result.deep_view() == spec_frames(data@, delimiter),
{
    let mut result_vector: Vec<Vec<u8>> = Vec::new();
    let mut current_vec: Vec<u8> = Vec::new();
    let mut current_index: usize = 0;
    proof {
        assert(data@.take(0) =~= Seq::<u8>::empty());
        assert(result_vector.deep_view() =~~= spec_frames(data@.take(0), delimiter));
    }
    while current_index < data.len()
        invariant
            current_index <= data.len(),
            result_vector.deep_view() == spec_frames(data@.take(current_index as int), delimiter),
            current_vec@ == spec_frame_tail(data@.take(current_index as int), delimiter),
        decreases data.len() - current_index,
    {
        let current = *slice_index_get(data, current_index);
        proof {
            assert(data@.take(current_index + 1).drop_last() =~= data@.take(current_index as int));
            assert(data@.take(current_index + 1).last() == data@[current_index as int]);
        }
        let ghost prev_frames = result_vector.deep_view();
        if current == delimiter {
            result_vector.push(current_vec);
            current_vec = Vec::new();
            proof {
                assert(result_vector.deep_view() =~~= prev_frames.push(
                    spec_frame_tail(data@.take(current_index as int), delimiter),
                ));
            }
        } else {
            current_vec.push(current);
        }
        current_index += 1;
    }
    proof {
        assert(data@.take(data@.len() as int) =~= data@);
    }
    result_vector
}

/// The byte value of the ASCII ampersand '&', the group delimiter of
/// the legacy message format.
pub const GROUP_DELIMITER: u8 = 38;

/// Separate the buffer into groups of bytes separated by ampersand '&'
/// characters. The separators are not included in each group.
pub fn get_messageblocks_groups(data: &[u8]) -> (r: Result<Vec<Vec<u8>>, &'static str>)
    ensures
        r is Ok,
        r->Ok_0.deep_view() == spec_frames(data@, GROUP_DELIMITER),
{
    Ok(frame(data, GROUP_DELIMITER))
}

/// Relies on byteorder's `LittleEndian::read_u32`, which reads the four
/// bytes as a little-endian unsigned integer.
#[verifier::external_body]
pub fn buf_to_u32(buf: [u8; 4]) -> (x: u32)
    ensures
        x == spec_u32_from_le_bytes(buf@),
{
    <byteorder::LittleEndian as byteorder::ByteOrder>::read_u32(&buf)
}

/// Relies on byteorder's `LittleEndian::write_u32`, which writes the
/// integer as four little-endian bytes.
#[verifier::external_body]
pub fn u32_to_buf(nb: u32) -> (res: Vec<u8>)
    ensures
        res@ == spec_u32_to_le_bytes(nb),
        res@.len() == 4,
{
    let mut res = vec![0u8; 4];
    <byteorder::LittleEndian as byteorder::ByteOrder>::write_u32(&mut res, nb);
    res
}

/// Relies on byteorder's `LittleEndian::read_u64`, which reads the
/// eight bytes as a little-endian unsigned integer.
#[verifier::external_body]
pub fn buf_to_u64(buf: [u8; 8]) -> (x: u64)
    ensures
        x == spec_u64_from_le_bytes(buf@),
{
    <byteorder::LittleEndian as byteorder::ByteOrder>::read_u64(&buf)
}

/// Relies on byteorder's `LittleEndian::write_u64`, which writes the
/// integer as eight little-endian bytes.
#[verifier::external_body]
pub fn u64_to_buf(nb: u64) -> (res: Vec<u8>)
    ensures
        res@ == spec_u64_to_le_bytes(nb),
        res@.len() == 8,
{
    let mut res = vec![0u8; 8];
    <byteorder::LittleEndian as byteorder::ByteOrder>::write_u64(&mut res, nb);
    res
}

/// Widen a `u32` to `usize`; the value always fits.
pub fn u32_to_usize(nb: u32) -> (r: usize)
    ensures
        r == nb,
{
    nb as usize
}

/// Narrow a `usize` to `u32`; fails with an overflow error when the
/// value does not fit — never silently wraps.
pub fn usize_to_u32(size: usize) -> (r: Result<u32, ProtocolError>)
    ensures
        size <= u32::MAX ==> r == Ok::<u32, ProtocolError>(size as u32),
        size > u32::MAX ==> r == Err::<u32, ProtocolError>(ProtocolError::NumericOverflow),
{
    if size <= u32::MAX as usize {
        Ok(size as u32)
    } else {
        Err(ProtocolError::NumericOverflow)
    }
}

/// Relies on `String::from_utf8`: it succeeds exactly on valid UTF-8
/// input and returns the decoded characters.
#[verifier::external_body]
pub(crate) fn string_from_utf8(v: &Vec<u8>) -> (r: Result<String, std::string::FromUtf8Error>)
    ensures
        r is Ok <==> valid_utf8(v@),
        r is Ok ==> r->Ok_0@ == decode_utf8(v@),
{
    std::string::String::from_utf8(v.clone())
}

/// The error type of `String::from_utf8`, opaque to the verifier.
#[verifier::external_type_specification]
#[verifier::external_body]
pub struct ExFromUtf8Error(std::string::FromUtf8Error);

/// Remove the trailing NUL bytes of a buffer and decode it as UTF-8.
pub fn vec_to_trimmed_string(buf: &[u8]) -> (r: Result<String, std::string::FromUtf8Error>)
    ensures
        r is Ok <==> valid_utf8(spec_trim(buf@)),
        r is Ok ==> r->Ok_0@ == decode_utf8(spec_trim(buf@)),
{
    let trimmed = trim_vec_end(buf);
    string_from_utf8(&trimmed)
}

/// Checks a condition and returns an `Err(T)` if it is false. Returns
/// `Ok(())` otherwise.
pub fn result_from_condition<T>(condition: bool, errordata: T) -> (r: Result<(), T>)
    ensures
        condition ==> r is Ok,
        !condition ==> (r matches Err(e) && e == errordata),
{
    if condition == false {
        return Err(errordata);
    }
    Ok(())
}

/// Checks a predicate and returns an `Err(T)` if it is false. Returns
/// `Ok(())` otherwise.
pub fn result_from_predicate<F, T>(predicate: F, errordata: T) -> (r: Result<(), T>) where
    F: Fn() -> bool
    requires
        predicate.requires(()),
    ensures
        r is Ok ==> predicate.ensures((), true),
        r is Err ==> predicate.ensures((), false) && (r matches Err(e) && e == errordata),
{
    if predicate() == false {
        return Err(errordata);
    }
    Ok(())
}

} // verus!
