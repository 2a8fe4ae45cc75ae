//! The PUTOBJ command: uploads a game object and a set of properties.
//!
//! Wire layout: 8 identifier bytes, an 8-byte operation code (u64,
//! little-endian), an 8-byte property count (u64, little-endian), then
//! for each property 8 name bytes NUL-padded, a 4-byte length (u32,
//! little-endian) and exactly that many data bytes.
//!
//! The command is structurally decodable but has no accepted business
//! behaviour in the core: dispatching it reports that it is not
//! implemented.

use vstd::prelude::*;
use vstd::slice::{slice_index_get, slice_subrange, slice_to_vec};

use crate::errors::{CommandField, ProtocolError};
use crate::utils::{
    buf_to_u32, buf_to_u64, pad_string, spec_pad, spec_trim, string_from_utf8, trim_vec_end,
    u32_to_buf, u32_to_usize, usize_to_u32,
};

verus! {

use vstd::bytes::{spec_u32_from_le_bytes, spec_u32_to_le_bytes, spec_u64_from_le_bytes};
use vstd::utf8::{decode_utf8, encode_utf8, is_ascii_chars, valid_utf8};

/// The operation a PUTOBJ command requests on the object.
#[derive(PartialEq, Eq, Structural, Copy, Clone, Debug)]
pub enum PutOperation {
    Add,
    Update,
    Delete,
}

/// The way reading one property can fail: the buffer ran out before
/// the property was complete, or its name bytes are not valid UTF-8.
#[derive(PartialEq, Eq, Structural, Copy, Clone, Debug)]
pub enum PropReadError {
    Truncated,
    BadName,
}

/// The operation encoded by `value`: 0 adds, 1 deletes, 2 updates; any
/// other value is unknown and fails.
pub fn u64_to_put_operation(value: u64) -> (r: Result<PutOperation, ProtocolError>)
    ensures
        value == 0 ==> r == Ok::<PutOperation, ProtocolError>(PutOperation::Add),
        value == 1 ==> r == Ok::<PutOperation, ProtocolError>(PutOperation::Delete),
        value == 2 ==> r == Ok::<PutOperation, ProtocolError>(PutOperation::Update),
        value > 2 ==> r == Err::<PutOperation, ProtocolError>(ProtocolError::UnknownOperation),
{
    match value {
        0 => Ok(PutOperation::Add),
        1 => Ok(PutOperation::Delete),
        2 => Ok(PutOperation::Update),
        _ => Err(ProtocolError::UnknownOperation),
    }
}

/// The operation denoted by a code of 0, 1 or 2.
pub open spec fn spec_operation_of(value: u64) -> PutOperation {
    if value == 0 {
        PutOperation::Add
    } else if value == 1 {
        PutOperation::Delete
    } else {
        PutOperation::Update
    }
}

/// One property of an uploaded object. A decoded property always has
/// `length` equal to `data.len()`.
#[derive(Debug, PartialEq)]
pub struct ObjProperties {
    pub name: String,
    pub length: u32,
    pub data: Vec<u8>,
}

/// The mathematical view of a property: its name characters, declared
/// length and data bytes.
pub open spec fn spec_prop_view(p: ObjProperties) -> (Seq<char>, u32, Seq<u8>) {
    (p.name@, p.length, p.data@)
}

/// The wire encoding of one property: the name padded to 8 bytes, the
/// data length as 4 little-endian bytes, then the data itself.
pub open spec fn spec_prop_encode(name: Seq<char>, data: Seq<u8>) -> Seq<u8> {
    spec_pad(encode_utf8(name), 8) + spec_u32_to_le_bytes(data.len() as u32) + data
}

/// The outcome of reading one property from `data` at `pos`: the
/// property's view with the position after it, or the kind of failure
/// with the position where it occurred.
pub open spec fn spec_prop_read(data: Seq<u8>, pos: int) -> Result<
    ((Seq<char>, u32, Seq<u8>), int),
    (PropReadError, int),
> {
    if pos + 12 > data.len() {
        Err((PropReadError::Truncated, pos))
    } else {
        let name_bytes = spec_trim(data.subrange(pos, pos + 8));
        let len = spec_u32_from_le_bytes(data.subrange(pos + 8, pos + 12)) as int;
        if pos + 12 + len > data.len() {
            Err((PropReadError::Truncated, pos))
        } else if !valid_utf8(name_bytes) {
            Err((PropReadError::BadName, pos))
        } else {
            Ok(
                (
                    (decode_utf8(name_bytes), len as u32, data.subrange(pos + 12, pos + 12 + len)),
                    pos + 12 + len,
                ),
            )
        }
    }
}

/// The outcome of reading `count` consecutive properties from `data`
/// at `pos`: their views with the final position, or the first failure.
pub open spec fn spec_props_read(data: Seq<u8>, pos: int, count: nat) -> Result<
    (Seq<(Seq<char>, u32, Seq<u8>)>, int),
    (PropReadError, int),
>
    decreases count,
{
    if count == 0 {
        Ok((Seq::empty(), pos))
    } else {
        match spec_prop_read(data, pos) {
            Err(e) => Err(e),
            Ok((p, next)) => match spec_props_read(data, next, (count - 1) as nat) {
                Err(e) => Err(e),
                Ok((rest, end)) => Ok((seq![p] + rest, end)),
            },
        }
    }
}

/// The operation code of a PUTOBJ frame.
pub open spec fn spec_putobj_op(data: Seq<u8>) -> u64 {
    spec_u64_from_le_bytes(data.subrange(8, 16))
}

/// The property count of a PUTOBJ frame.
pub open spec fn spec_putobj_count(data: Seq<u8>) -> u64 {
    spec_u64_from_le_bytes(data.subrange(16, 24))
}

/// Read the four bytes at `pos` as a little-endian u32.
fn read_u32_at(data: &[u8], pos: usize) -> (x: u32)
    requires
        pos + 4 <= data@.len(),
    ensures
        x == spec_u32_from_le_bytes(data@.subrange(pos as int, pos + 4)),
{
    let _n: usize = data.len();
    let arr: [u8; 4] = [
        *slice_index_get(data, pos),
        *slice_index_get(data, pos + 1),
        *slice_index_get(data, pos + 2),
        *slice_index_get(data, pos + 3),
    ];
    proof {
        assert(arr@ =~= data@.subrange(pos as int, pos + 4));
    }
    buf_to_u32(arr)
}

/// Read the eight bytes at `pos` as a little-endian u64.
fn read_u64_at(data: &[u8], pos: usize) -> (x: u64)
    requires
        pos + 8 <= data@.len(),
    ensures
        x == spec_u64_from_le_bytes(data@.subrange(pos as int, pos + 8)),
{
    let _n: usize = data.len();
    let arr: [u8; 8] = [
        *slice_index_get(data, pos),
        *slice_index_get(data, pos + 1),
        *slice_index_get(data, pos + 2),
        *slice_index_get(data, pos + 3),
        *slice_index_get(data, pos + 4),
        *slice_index_get(data, pos + 5),
        *slice_index_get(data, pos + 6),
        *slice_index_get(data, pos + 7),
    ];
    proof {
        assert(arr@ =~= data@.subrange(pos as int, pos + 8));
    }
    buf_to_u64(arr)
}

impl ObjProperties {
    /// Serialize the structure to a binary vector.
    pub fn to_bytes(&self) -> (result: Vec<u8>)
        requires
            self.data@.len() <= u32::MAX,
        ensures
            result@ == spec_prop_encode(self.name@, self.data@),
    {
        let mut result = pad_string(self.name.as_str().as_bytes(), 8);
        let len_field = match usize_to_u32(self.data.len()) {
            Ok(l) => l,
            Err(_) => {
                // Unreachable: the caller bounds the data length.
                proof {
                    assert(false);
                }
                0
            },
        };
        let mut len_buf = u32_to_buf(len_field);
        result.append(&mut len_buf);
        let mut data_copy = slice_to_vec(self.data.as_slice());
        result.append(&mut data_copy);
        proof {
            assert(result@ =~= spec_prop_encode(self.name@, self.data@));
        }
        result
    }

    /// Read one property from `data` starting at byte position `pos`;
    /// on success also return the position just after the property.
    pub fn read_at(data: &[u8], pos: usize) -> (r: Result<(ObjProperties, usize), ProtocolError>)
        requires
            pos <= data@.len(),
        ensures
            match spec_prop_read(data@, pos as int) {
                Ok((p, next)) => (r matches Ok((prop, np)) && spec_prop_view(prop) == p && np
                    == next && np <= data@.len()),
                Err((kind, ep)) => {
                    if kind == PropReadError::Truncated {
                        r == Err::<(ObjProperties, usize), ProtocolError>(
                            ProtocolError::TruncatedMessage,
                        )
                    } else {
                        r matches Err(e) && e matches ProtocolError::ValidationError(f, v) && f
                            == CommandField::PropertyName && v@ == spec_trim(
                            data@.subrange(ep, ep + 8),
                        )
                    }
                },
            },
    {
        if data.len() - pos < 12 {
            return Err(ProtocolError::TruncatedMessage);
        }
        let name_buf = trim_vec_end(slice_subrange(data, pos, pos + 8));
        let length_field = read_u32_at(data, pos + 8);
        let data_len = u32_to_usize(length_field);
        if data.len() - (pos + 12) < data_len {
            return Err(ProtocolError::TruncatedMessage);
        }
        let name_s = match string_from_utf8(&name_buf) {
            Ok(s) => s,
            Err(_) => {
                return Err(ProtocolError::ValidationError(CommandField::PropertyName, name_buf));
            },
        };
        let data_buf = slice_to_vec(slice_subrange(data, pos + 12, pos + 12 + data_len));
        Ok((ObjProperties { name: name_s, length: length_field, data: data_buf }, pos + 12
            + data_len))
    }

    /// Read the property that starts at the beginning of `data`,
    /// ignoring any bytes after it.
    pub fn from_bytes(data: &[u8]) -> (r: Result<ObjProperties, ProtocolError>)
        ensures
            match spec_prop_read(data@, 0) {
                Ok((p, _)) => (r matches Ok(prop) && spec_prop_view(prop) == p),
                Err((kind, ep)) => {
                    if kind == PropReadError::Truncated {
                        r == Err::<ObjProperties, ProtocolError>(ProtocolError::TruncatedMessage)
                    } else {
                        r matches Err(e) && e matches ProtocolError::ValidationError(f, v) && f
                            == CommandField::PropertyName && v@ == spec_trim(
                            data@.subrange(ep, ep + 8),
                        )
                    }
                },
            },
    {
        match ObjProperties::read_at(data, 0) {
            Ok((prop, _)) => Ok(prop),
            Err(e) => Err(e),
        }
    }
}

/// A decoded PUTOBJ command.
#[derive(Debug)]
pub struct PutObjCommand {
    pub id: String,
    pub operation: PutOperation,
    pub properties: Vec<ObjProperties>,
}

impl PutObjCommand {
    /// Decode a PUTOBJ frame: the fixed header with operation code and
    /// property count, then exactly `count` properties read from one
    /// cursor. Decoding never succeeds partially: an exhausted buffer
    /// or an unknown operation fails the whole command.
    pub fn from_client_message(data: &[u8]) -> (r: Result<PutObjCommand, ProtocolError>)
        ensures
            data@.len() < 24 ==> r == Err::<PutObjCommand, ProtocolError>(
                ProtocolError::MalformedMessage,
            ),
            data@.len() >= 24 && spec_putobj_op(data@) > 2 ==> r == Err::<
                PutObjCommand,
                ProtocolError,
            >(ProtocolError::UnknownOperation),
            data@.len() >= 24 && spec_putobj_op(data@) <= 2 ==> match spec_props_read(
                data@,
                24,
                spec_putobj_count(data@) as nat,
            ) {
                Ok((props, _)) => (r matches Ok(cmd) && {
                    &&& cmd.id@ == "PUTOBJ"@
                    &&& cmd.operation == spec_operation_of(spec_putobj_op(data@))
                    &&& cmd.properties@.map_values(|p: ObjProperties| spec_prop_view(p)) == props
                }),
                Err((kind, ep)) => {
                    if kind == PropReadError::Truncated {
                        r == Err::<PutObjCommand, ProtocolError>(ProtocolError::TruncatedMessage)
                    } else {
                        r matches Err(e) && e matches ProtocolError::ValidationError(f, v) && f
                            == CommandField::PropertyName && v@ == spec_trim(
                            data@.subrange(ep, ep + 8),
                        )
                    }
                },
            },
            r matches Ok(cmd) ==> forall|i: int|
                0 <= i < cmd.properties@.len() ==> (#[trigger] cmd.properties@[i]).length
                    == cmd.properties@[i].data@.len(),
    {
        if data.len() < 24 {
            return Err(ProtocolError::MalformedMessage);
        }
        let oper_code = read_u64_at(data, 8);
        let operation = match u64_to_put_operation(oper_code) {
            Ok(op) => op,
            Err(e) => {
                return Err(e);
            },
        };
        let prop_count = read_u64_at(data, 16);
        let ghost total = spec_props_read(data@, 24, prop_count as nat);
        let mut properties_list: Vec<ObjProperties> = Vec::new();
        let mut pos: usize = 24;
        let mut i: u64 = 0;
        proof {
            assert(properties_list@.map_values(|p: ObjProperties| spec_prop_view(p)) =~= Seq::<
                (Seq<char>, u32, Seq<u8>),
            >::empty());
            match spec_props_read(data@, 24, prop_count as nat) {
                Ok(pair) => {
                    assert(Seq::<(Seq<char>, u32, Seq<u8>)>::empty() + pair.0 =~= pair.0);
                },
                Err(_) => {},
            }
        }
        while i < prop_count
            invariant
                i <= prop_count,
                24 <= pos <= data@.len(),
                spec_putobj_op(data@) <= 2,
                prop_count == spec_putobj_count(data@),
                total == spec_props_read(data@, 24, prop_count as nat),
                forall|k: int|
                    0 <= k < properties_list@.len() ==> (#[trigger] properties_list@[k]).length
                        == properties_list@[k].data@.len(),
                match spec_props_read(data@, pos as int, (prop_count - i) as nat) {
                    Ok((rest, end)) => total matches Ok((all, e2)) && all == properties_list@
                        .map_values(|p: ObjProperties| spec_prop_view(p)) + rest && e2 == end,
                    Err(e) => total == Err::<(Seq<(Seq<char>, u32, Seq<u8>)>, int), (
                        PropReadError,
                        int,
                    )>(e),
                },
            decreases prop_count - i,
        {
            let ghost prev_props = properties_list@.map_values(
                |p: ObjProperties| spec_prop_view(p),
            );
            let (prop, new_pos) = match ObjProperties::read_at(data, pos) {
                Ok(pair) => pair,
                Err(e) => {
                    proof {
                        let k = (prop_count - i) as nat;
                        match spec_prop_read(data@, pos as int) {
                            Err(pe) => {
                                assert(spec_props_read(data@, pos as int, k) == Err::<
                                    (Seq<(Seq<char>, u32, Seq<u8>)>, int),
                                    (PropReadError, int),
                                >(pe));
                            },
                            Ok(_) => {
                                assert(false);
                            },
                        }
                    }
                    return Err(e);
                },
            };
            properties_list.push(prop);
            pos = new_pos;
            i = i + 1;
            proof {
                assert(properties_list@.map_values(|p: ObjProperties| spec_prop_view(p))
                    =~= prev_props.push(spec_prop_view(prop)));
                match spec_props_read(data@, pos as int, (prop_count - i) as nat) {
                    Ok((rest, end)) => {
                        assert(prev_props + (seq![spec_prop_view(prop)] + rest) =~= prev_props.push(
                            spec_prop_view(prop),
                        ) + rest);
                    },
                    Err(e) => {},
                }
            }
        }
        proof {
            assert(spec_props_read(data@, pos as int, 0) == Ok::<
                (Seq<(Seq<char>, u32, Seq<u8>)>, int),
                (PropReadError, int),
            >((Seq::empty(), pos as int)));
            match total {
                Ok(pair) => {
                    assert(pair.0 =~= properties_list@.map_values(
                        |p: ObjProperties| spec_prop_view(p),
                    ) + Seq::<(Seq<char>, u32, Seq<u8>)>::empty());
                    assert(pair.0 =~= properties_list@.map_values(
                        |p: ObjProperties| spec_prop_view(p),
                    ));
                },
                Err(_) => {},
            }
        }
        let res = PutObjCommand {
            id: "PUTOBJ".to_owned(),
            operation,
            properties: properties_list,
        };
        Ok(res)
    }
}

/// Round trip: a property whose name is ASCII of at most 8 bytes
/// holding no NUL character and whose data fits a u32 length reads
/// back from its own encoding, wherever that encoding stands in a
/// buffer, and the cursor advances exactly past it.
pub proof fn lemma_prop_round_trip(name: Seq<char>, data: Seq<u8>, prefix: Seq<u8>, suffix: Seq<u8>)
    requires
        is_ascii_chars(name),
        name.len() <= 8,
        forall|i: int| 0 <= i < name.len() ==> name[i] != '\0',
        data.len() <= u32::MAX,
    ensures
        spec_prop_read(prefix + spec_prop_encode(name, data) + suffix, prefix.len() as int) == Ok::<
            ((Seq<char>, u32, Seq<u8>), int),
            (PropReadError, int),
        >(((name, data.len() as u32, data), prefix.len() as int + 12 + data.len() as int)),
{
    broadcast use vstd::utf8::group_utf8_lib;

    vstd::bytes::lemma_auto_spec_u32_to_from_le_bytes();
    let nb = encode_utf8(name);
    crate::utils::lemma_ascii_nonzero_bytes(name);
    crate::utils::lemma_trim_pad_inverse(nb, 8);
    let enc = spec_prop_encode(name, data);
    let buf = prefix + enc + suffix;
    let pos = prefix.len() as int;
    assert(spec_u32_to_le_bytes(data.len() as u32).len() == 4);
    assert(enc.len() == 12 + data.len());
    assert(buf.subrange(pos, pos + 8) =~= spec_pad(nb, 8));
    assert(buf.subrange(pos + 8, pos + 12) =~= spec_u32_to_le_bytes(data.len() as u32));
    assert(spec_u32_from_le_bytes(buf.subrange(pos + 8, pos + 12)) == data.len() as u32);
    assert(buf.subrange(pos + 12, pos + 12 + data.len()) =~= data);
    assert(decode_utf8(nb) == name);
}

} // verus!
