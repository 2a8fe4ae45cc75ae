//! Legacy message blocks: identity blocks of the '&'-grouped format,
//! and the default request structures.

use vstd::prelude::*;
use vstd::slice::{slice_index_get, slice_subrange, slice_to_vec};

use crate::clock::now_timestamp;
use crate::utils::{bytes_equal, string_from_utf8, GROUP_DELIMITER};

verus! {

use vstd::utf8::{decode_utf8, encode_utf8, valid_utf8};

/// Data about misc data for a request.
#[derive(Debug)]
pub struct Commondata {
    /// Static identifier of the message type. Must be assigned to the
    /// correct value by the creation function.
    pub id: &'static str,
    /// Seconds since the Unix epoch when the request was made.
    pub request_date: i64,
}

/// Data about a particular user of a request.
#[derive(Debug)]
pub struct Userdata {
    /// Identifier for the player.
    pub user_id: String,
}

/// The bytes of `b` before its first NUL byte.
pub open spec fn spec_until_nul(b: Seq<u8>) -> Seq<u8>
    decreases b.len(),
{
    if b.len() == 0 {
        Seq::empty()
    } else if b[0] == 0u8 {
        Seq::empty()
    } else {
        seq![b[0]] + spec_until_nul(b.drop_first())
    }
}

/// When the first `i` bytes are not NUL and the byte at `i` (if any)
/// is NUL, the prefix before the first NUL is exactly the first `i`
/// bytes.
proof fn lemma_until_nul_take(b: Seq<u8>, i: int)
    requires
        0 <= i <= b.len(),
        forall|j: int| 0 <= j < i ==> b[j] != 0u8,
        i < b.len() ==> b[i] == 0u8,
    ensures
        spec_until_nul(b) == b.take(i),
    decreases i,
{
    if i == 0 {
        assert(b.take(0) =~= Seq::<u8>::empty());
    } else {
        lemma_until_nul_take(b.drop_first(), i - 1);
        assert(seq![b[0]] + b.drop_first().take(i - 1) =~= b.take(i));
    }
}

/// A block is well-formed exactly when it is free of the group
/// delimiter, holds at least 40 bytes, opens with the identifier "ID"
/// before its first NUL byte, and carries 32 bytes of text.
pub open spec fn spec_userdata_ok(data: Seq<u8>) -> bool {
    &&& !data.contains(GROUP_DELIMITER)
    &&& data.len() >= 40
    &&& spec_until_nul(data.subrange(0, 8)) == encode_utf8("ID"@)
    &&& valid_utf8(data.subrange(8, 40))
}

impl Userdata {
    /// Parse an identity block: an 8-byte identifier reading "ID" up to
    /// its first NUL byte, then 32 bytes of user data. A block holding
    /// the group delimiter, or too short, or whose user data is not
    /// text, is rejected.
    pub fn parse(data: &[u8]) -> (r: Result<Userdata, &'static str>)
        ensures
            r is Ok <==> spec_userdata_ok(data@),
            r matches Ok(u) ==> u.user_id@ == decode_utf8(data@.subrange(8, 40)),
            r matches Err(e) ==> e@ == "Parse error."@,
    {
        if validate_no_message_marker(data) == false {
            return Err("Parse error.");
        }
        if data.len() < 40 {
            return Err("Parse error.");
        }
        let ident = slice_subrange(data, 0, 8);
        let matches_id = match messageblock_ident_matches(ident, "ID") {
            Ok(b) => b,
            Err(e) => {
                return Err(e);
            },
        };
        if !matches_id {
            return Err("Parse error.");
        }
        let read_user_id = slice_to_vec(slice_subrange(data, 8, 40));
        let user_id = match string_from_utf8(&read_user_id) {
            Ok(s) => s,
            Err(_) => {
                return Err("Parse error.");
            },
        };
        Ok(Userdata { user_id })
    }
}

/// Checks if the characters in `data` up to the first NUL byte match
/// the expected string.
fn messageblock_ident_matches(data: &[u8], expected: &str) -> (r: Result<bool, &'static str>)
    ensures
        r matches Ok(b) && b == (spec_until_nul(data@) == encode_utf8(expected@)),
{
    let mut i: usize = 0;
    while i < data.len() && *slice_index_get(data, i) != 0
        invariant
            i <= data@.len(),
            forall|j: int| 0 <= j < i ==> data@[j] != 0u8,
        decreases data@.len() - i,
    {
        i += 1;
    }
    proof {
        lemma_until_nul_take(data@, i as int);
    }
    let prefix = slice_subrange(data, 0, i);
    Ok(bytes_equal(prefix, expected.as_bytes()))
}

/// True when the buffer holds no group-delimiter byte: a block must
/// not contain the frame marker.
fn validate_no_message_marker(to_verify: &[u8]) -> (r: bool)
    ensures
        r == !to_verify@.contains(GROUP_DELIMITER),
{
    let mut i: usize = 0;
    while i < to_verify.len()
        invariant
            i <= to_verify@.len(),
            forall|j: int| 0 <= j < i ==> to_verify@[j] != GROUP_DELIMITER,
        decreases to_verify@.len() - i,
    {
        if *slice_index_get(to_verify, i) == GROUP_DELIMITER {
            return false;
        }
        i += 1;
    }
    true
}

/// Create default structures that are usually included in every request
/// types.
///
/// Returned as a tuple with a copy of each type of structs. The structs
/// are created with default values; normally each structure would be
/// created separately with proper data.
pub fn generate_default_structs() -> (r: (Userdata, Commondata))
    ensures
        r.0.user_id@ == "Default"@,
        r.1.id@ == "DEF"@,
{
    let default_user = Userdata { user_id: "Default".to_owned() };
    let default_misc = Commondata { id: "DEF", request_date: now_timestamp() };
    (default_user, default_misc)
}

} // verus!
