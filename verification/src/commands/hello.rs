//! The HELLO command: the message that opens a session and carries the
//! player's identity.
//!
//! Wire layout: 8 identifier bytes holding "HELO" NUL-padded, 32 user
//! bytes NUL-padded, and the remaining bytes of the frame as the
//! message, at its natural length.

use vstd::prelude::*;
use vstd::slice::{slice_subrange, slice_to_vec};

use crate::errors::{CommandField, ProtocolError};
use crate::utils::{pad_string, spec_pad, spec_trim, string_from_utf8, trim_vec_end};

verus! {

use vstd::string::StringExecFnsIsAscii;
use vstd::utf8::{decode_utf8, encode_utf8, is_ascii_chars, valid_utf8};

/// A decoded HELLO command.
#[derive(Debug, PartialEq)]
pub struct HelloCommand {
    pub id: String,
    pub user: String,
    pub msg: String,
}

/// The trimmed identifier bytes of a HELLO frame.
pub open spec fn spec_hello_id_bytes(data: Seq<u8>) -> Seq<u8> {
    spec_trim(data.subrange(0, 8))
}

/// The trimmed user bytes of a HELLO frame.
pub open spec fn spec_hello_user_bytes(data: Seq<u8>) -> Seq<u8> {
    spec_trim(data.subrange(8, 40))
}

/// The message bytes of a HELLO frame: everything after the fixed
/// header, with no further trimming.
pub open spec fn spec_hello_msg_bytes(data: Seq<u8>) -> Seq<u8> {
    data.skip(40)
}

/// The identifier field decodes to the literal "HELO".
pub open spec fn spec_hello_id_ok(data: Seq<u8>) -> bool {
    &&& valid_utf8(spec_hello_id_bytes(data))
    &&& decode_utf8(spec_hello_id_bytes(data)) == "HELO"@
}

/// The user field decodes to pure ASCII text.
pub open spec fn spec_hello_user_ok(data: Seq<u8>) -> bool {
    &&& valid_utf8(spec_hello_user_bytes(data))
    &&& is_ascii_chars(decode_utf8(spec_hello_user_bytes(data)))
}

/// The message field decodes to pure ASCII text.
pub open spec fn spec_hello_msg_ok(data: Seq<u8>) -> bool {
    &&& valid_utf8(spec_hello_msg_bytes(data))
    &&& is_ascii_chars(decode_utf8(spec_hello_msg_bytes(data)))
}

/// A frame decodes into a HELLO command exactly when it holds the full
/// fixed-width header and every field passes validation.
pub open spec fn spec_hello_ok(data: Seq<u8>) -> bool {
    &&& data.len() >= 40
    &&& spec_hello_id_ok(data)
    &&& spec_hello_user_ok(data)
    &&& spec_hello_msg_ok(data)
}

/// The field values of a HELLO command are valid: the identifier is the
/// literal "HELO" and user and message are pure ASCII.
pub open spec fn spec_hello_valid(cmd: HelloCommand) -> bool {
    &&& cmd.id@ == "HELO"@
    &&& is_ascii_chars(cmd.user@)
    &&& is_ascii_chars(cmd.msg@)
}

/// The wire encoding of a HELLO command with the given field values.
pub open spec fn spec_hello_encode(id: Seq<char>, user: Seq<char>, msg: Seq<char>) -> Seq<u8> {
    spec_pad(encode_utf8(id), 8) + spec_pad(encode_utf8(user), 32) + encode_utf8(msg)
}

impl HelloCommand {
    /// Creates a HelloCommand from a buffer.
    ///
    /// The data in the buffer must be formatted correctly using the
    /// message structure of the server ABI.
    pub fn from_client_message(data: &[u8]) -> (r: Result<HelloCommand, ProtocolError>)
        ensures
            r is Ok <==> spec_hello_ok(data@),
            r matches Ok(cmd) ==> {
                &&& cmd.id@ == decode_utf8(spec_hello_id_bytes(data@))
                &&& cmd.user@ == decode_utf8(spec_hello_user_bytes(data@))
                &&& cmd.msg@ == decode_utf8(spec_hello_msg_bytes(data@))
            },
            data@.len() < 40 ==> r == Err::<HelloCommand, ProtocolError>(
                ProtocolError::MalformedMessage,
            ),
            data@.len() >= 40 && !spec_hello_id_ok(data@) ==> (r matches Err(e)
                && e matches ProtocolError::ValidationError(f, v) && f == CommandField::Id && v@
                == spec_hello_id_bytes(data@)),
            data@.len() >= 40 && spec_hello_id_ok(data@) && !spec_hello_user_ok(data@) ==> (
            r matches Err(e) && e matches ProtocolError::ValidationError(f, v) && f
                == CommandField::User && v@ == spec_hello_user_bytes(data@)),
            data@.len() >= 40 && spec_hello_id_ok(data@) && spec_hello_user_ok(data@)
                && !spec_hello_msg_ok(data@) ==> (r matches Err(e)
                && e matches ProtocolError::ValidationError(f, v) && f == CommandField::Message
                && v@ == spec_hello_msg_bytes(data@)),
    {
        let result = HelloCommand::deserialize(data)?;
        Ok(result)
    }

    /// Create a HelloCommand with the information provided.
    pub fn from_info(from_user: &str, with_message: &str) -> (cmd: HelloCommand)
        ensures
            cmd.id@ == "HELO"@,
            cmd.user@ == from_user@,
            cmd.msg@ == with_message@,
    {
        HelloCommand {
            id: "HELO".to_owned(),
            user: from_user.to_owned(),
            msg: with_message.to_owned(),
        }
    }

    /// Deserialize a buffer into a HelloCommand instance.
    ///
    /// The buffer must hold at least the 40 header bytes, the trimmed
    /// identifier must read "HELO", and user and message must be pure
    /// ASCII; any violation yields the matching error and never a
    /// partial command.
    pub fn deserialize(data: &[u8]) -> (r: Result<HelloCommand, ProtocolError>)
        ensures
            r is Ok <==> spec_hello_ok(data@),
            r matches Ok(cmd) ==> {
                &&& cmd.id@ == decode_utf8(spec_hello_id_bytes(data@))
                &&& cmd.user@ == decode_utf8(spec_hello_user_bytes(data@))
                &&& cmd.msg@ == decode_utf8(spec_hello_msg_bytes(data@))
            },
            data@.len() < 40 ==> r == Err::<HelloCommand, ProtocolError>(
                ProtocolError::MalformedMessage,
            ),
            data@.len() >= 40 && !spec_hello_id_ok(data@) ==> (r matches Err(e)
                && e matches ProtocolError::ValidationError(f, v) && f == CommandField::Id && v@
                == spec_hello_id_bytes(data@)),
            data@.len() >= 40 && spec_hello_id_ok(data@) && !spec_hello_user_ok(data@) ==> (
            r matches Err(e) && e matches ProtocolError::ValidationError(f, v) && f
                == CommandField::User && v@ == spec_hello_user_bytes(data@)),
            data@.len() >= 40 && spec_hello_id_ok(data@) && spec_hello_user_ok(data@)
                && !spec_hello_msg_ok(data@) ==> (r matches Err(e)
                && e matches ProtocolError::ValidationError(f, v) && f == CommandField::Message
                && v@ == spec_hello_msg_bytes(data@)),
    {
        if data.len() < 40 {
            return Err(ProtocolError::MalformedMessage);
        }
        let id_bytes = trim_vec_end(slice_subrange(data, 0, 8));
        let id_s = match string_from_utf8(&id_bytes) {
            Ok(s) => s,
            Err(_) => {
                return Err(ProtocolError::ValidationError(CommandField::Id, id_bytes));
            },
        };
        let helo: String = "HELO".to_owned();
        if !(id_s == helo) {
            return Err(ProtocolError::ValidationError(CommandField::Id, id_bytes));
        }
        let user_bytes = trim_vec_end(slice_subrange(data, 8, 40));
        let user_s = match string_from_utf8(&user_bytes) {
            Ok(s) => s,
            Err(_) => {
                return Err(ProtocolError::ValidationError(CommandField::User, user_bytes));
            },
        };
        if !user_s.is_ascii() {
            return Err(ProtocolError::ValidationError(CommandField::User, user_bytes));
        }
        proof {
            assert(data@.subrange(40, data@.len() as int) =~= spec_hello_msg_bytes(data@));
        }
        let msg_bytes = slice_to_vec(slice_subrange(data, 40, data.len()));
        let msg_s = match string_from_utf8(&msg_bytes) {
            Ok(s) => s,
            Err(_) => {
                return Err(ProtocolError::ValidationError(CommandField::Message, msg_bytes));
            },
        };
        if !msg_s.is_ascii() {
            return Err(ProtocolError::ValidationError(CommandField::Message, msg_bytes));
        }
        Ok(HelloCommand { id: id_s, user: user_s, msg: msg_s })
    }

    /// Serialize the HelloCommand instance.
    ///
    /// The identifier is padded to 8 bytes and the user to 32 bytes;
    /// the message is emitted at its natural length, not padded.
    pub fn serialize(&self) -> (flat: Vec<u8>)
        ensures
            flat@ == spec_hello_encode(self.id@, self.user@, self.msg@),
    {
        let mut flat = pad_string(self.id.as_str().as_bytes(), 8);
        let mut user_part = pad_string(self.user.as_str().as_bytes(), 32);
        flat.append(&mut user_part);
        let mut msg_part = slice_to_vec(self.msg.as_str().as_bytes());
        flat.append(&mut msg_part);
        proof {
            assert(flat@ =~= spec_hello_encode(self.id@, self.user@, self.msg@));
        }
        flat
    }
}

/// Round trip: a HELLO command whose identifier is "HELO", whose user
/// is ASCII of at most 32 bytes holding no NUL character, and whose
/// message is ASCII decodes from its own wire encoding back to the same
/// field values.
pub proof fn lemma_hello_round_trip(id: Seq<char>, user: Seq<char>, msg: Seq<char>)
    requires
        id == "HELO"@,
        is_ascii_chars(user),
        user.len() <= 32,
        forall|i: int| 0 <= i < user.len() ==> user[i] != '\0',
        is_ascii_chars(msg),
    ensures
        spec_hello_ok(spec_hello_encode(id, user, msg)),
        decode_utf8(spec_hello_id_bytes(spec_hello_encode(id, user, msg))) == id,
        decode_utf8(spec_hello_user_bytes(spec_hello_encode(id, user, msg))) == user,
        decode_utf8(spec_hello_msg_bytes(spec_hello_encode(id, user, msg))) == msg,
{
    broadcast use vstd::utf8::group_utf8_lib;

    reveal_strlit("HELO");
    let enc = spec_hello_encode(id, user, msg);
    let idb = encode_utf8(id);
    let ub = encode_utf8(user);
    let mb = encode_utf8(msg);
    assert(id.len() == 4);
    assert(is_ascii_chars(id)) by {
        assert(id[0] == 'H' && id[1] == 'E' && id[2] == 'L' && id[3] == 'O');
    }
    assert(forall|i: int| 0 <= i < id.len() ==> id[i] != '\0') by {
        assert(id[0] == 'H' && id[1] == 'E' && id[2] == 'L' && id[3] == 'O');
    }
    crate::utils::lemma_ascii_nonzero_bytes(id);
    crate::utils::lemma_ascii_nonzero_bytes(user);
    crate::utils::lemma_trim_pad_inverse(idb, 8);
    crate::utils::lemma_trim_pad_inverse(ub, 32);
    assert(enc.subrange(0, 8) =~= spec_pad(idb, 8));
    assert(enc.subrange(8, 40) =~= spec_pad(ub, 32));
    assert(enc.skip(40) =~= mb);
    assert(spec_hello_id_bytes(enc) == idb);
    assert(spec_hello_user_bytes(enc) == ub);
    assert(decode_utf8(idb) == id);
    assert(decode_utf8(ub) == user);
    assert(decode_utf8(mb) == msg);
}

/// Validate the field values of a HELLO command: the identifier must be
/// the literal "HELO" and user and message must be pure ASCII. A
/// violation reports the offending field together with its raw bytes.
pub fn validate_command(command: &HelloCommand) -> (r: Result<(), ProtocolError>)
    ensures
        r is Ok <==> spec_hello_valid(*command),
        command.id@ != "HELO"@ ==> (r matches Err(e) && e matches ProtocolError::ValidationError(
            f,
            v,
        ) && f == CommandField::Id && v@ == encode_utf8(command.id@)),
        command.id@ == "HELO"@ && !is_ascii_chars(command.user@) ==> (r matches Err(e)
            && e matches ProtocolError::ValidationError(f, v) && f == CommandField::User && v@
            == encode_utf8(command.user@)),
        command.id@ == "HELO"@ && is_ascii_chars(command.user@) && !is_ascii_chars(command.msg@)
            ==> (r matches Err(e) && e matches ProtocolError::ValidationError(f, v) && f
            == CommandField::Message && v@ == encode_utf8(command.msg@)),
{
    let helo: String = "HELO".to_owned();
    if !(command.id == helo) {
        return Err(
            ProtocolError::ValidationError(CommandField::Id, slice_to_vec(command.id.as_str().as_bytes())),
        );
    }
    if command.user.is_ascii() == false {
        return Err(
            ProtocolError::ValidationError(
                CommandField::User,
                slice_to_vec(command.user.as_str().as_bytes()),
            ),
        );
    }
    if command.msg.is_ascii() == false {
        return Err(
            ProtocolError::ValidationError(
                CommandField::Message,
                slice_to_vec(command.msg.as_str().as_bytes()),
            ),
        );
    }
    Ok(())
}

} // verus!
