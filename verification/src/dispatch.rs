//! The dispatch layer: consumes one framed message, decodes it into a
//! command by its identifier, feeds the session state machine and
//! updates the session's accounting. The caller owns the read loop and
//! the registry lock, and reconciles the registry after each message.

use vstd::prelude::*;
use vstd::slice::slice_subrange;

use crate::commands::bye::ByeCommand;
use crate::commands::hello::{
    spec_hello_msg_bytes, spec_hello_msg_ok, spec_hello_ok, spec_hello_user_bytes,
    spec_hello_user_ok, HelloCommand,
};
use crate::commands::putobj::{
    spec_props_read, spec_putobj_count, spec_putobj_op, PropReadError, PutObjCommand,
};
use crate::errors::{CommandField, ProtocolError};
use crate::sessions::{PlayerSession, SessionManager, SessionState};
use crate::utils::{spec_trim, vec_to_trimmed_string};

verus! {

use vstd::utf8::{decode_utf8, valid_utf8};

/// The trimmed command identifier of a frame: its first 8 bytes without
/// trailing NUL bytes.
pub open spec fn spec_msg_type_bytes(data: Seq<u8>) -> Seq<u8> {
    spec_trim(data.subrange(0, 8))
}

/// The frame's identifier decodes to the command name `name`.
pub open spec fn spec_type_is(data: Seq<u8>, name: Seq<char>) -> bool {
    &&& data.len() >= 8
    &&& valid_utf8(spec_msg_type_bytes(data))
    &&& decode_utf8(spec_msg_type_bytes(data)) == name
}

/// The session's protocol state and identity, and the registry, are as
/// they were before the call; only the accounting fields may differ.
pub open spec fn spec_untouched(
    pre: PlayerSession,
    post: PlayerSession,
    registry_pre: Seq<PlayerSession>,
    registry_post: Seq<PlayerSession>,
) -> bool {
    &&& post.state == pre.state
    &&& post.player_name == pre.player_name
    &&& registry_post == registry_pre
}

/// Read the ID part of the data buffer.
///
/// Specifically, this reads the first 8 bytes and returns a string with
/// the trailing NUL bytes trimmed; a frame shorter than 8 bytes or an
/// identifier that is not text yields nothing.
pub fn find_message_type(data: &[u8]) -> (r: Option<String>)
    ensures
        r is Some <==> (data@.len() >= 8 && valid_utf8(spec_msg_type_bytes(data@))),
        r matches Some(s) ==> s@ == decode_utf8(spec_msg_type_bytes(data@)),
{
    if data.len() < 8 {
        return None;
    }
    let header = slice_subrange(data, 0, 8);
    match vec_to_trimmed_string(header) {
        Ok(s) => Some(s),
        Err(_) => None,
    }
}

/// Processing for the HELLO message: from a closed session it opens the
/// session, sets its identity from the user field and registers a
/// snapshot; on an already-active session it fails and changes nothing.
pub fn handle_hello_message(
    message: &HelloCommand,
    session: &mut PlayerSession,
    manager: &mut SessionManager,
) -> (r: Result<(), ProtocolError>)
    ensures
        old(session).state == SessionState::Closed ==> {
            &&& r is Ok
            &&& final(session).state == SessionState::Active
            &&& final(session).player_name == Some(message.user)
            &&& final(session).messages_count == old(session).messages_count
            &&& final(session).last_comm_time == old(session).last_comm_time
            &&& final(manager)@ == old(manager)@.push(*final(session))
        },
        old(session).state == SessionState::Active ==> {
            &&& r == Err::<(), ProtocolError>(ProtocolError::SessionAlreadyOpen)
            &&& *final(session) == *old(session)
            &&& final(manager)@ == old(manager)@
        },
{
    match session.state {
        SessionState::Closed => {
            session.state = SessionState::Active;
            session.set_username(message.user.clone());
            manager.add_session(session.clone());
            Ok(())
        },
        SessionState::Active => Err(ProtocolError::SessionAlreadyOpen),
    }
}

/// Processing for the BYE message: acknowledged only on an active
/// session, which deliberately stays active — closing and removal are
/// the connection lifecycle's decision, outside the dispatch layer. On
/// a session that was never opened it fails.
pub fn handle_bye_message(
    _message: &ByeCommand,
    session: &mut PlayerSession,
    _manager: &SessionManager,
) -> (r: Result<(), ProtocolError>)
    ensures
        *final(session) == *old(session),
        old(session).state == SessionState::Closed ==> r == Err::<(), ProtocolError>(
            ProtocolError::SessionNotOpen,
        ),
        old(session).state == SessionState::Active ==> r is Ok,
{
    match session.state {
        SessionState::Closed => Err(ProtocolError::SessionNotOpen),
        SessionState::Active => {
            session.state = SessionState::Active;
            Ok(())
        },
    }
}

/// Processing for the PUTOBJ message: the command is structurally
/// decodable but has no accepted behaviour in the core, so handling it
/// always fails and changes nothing.
pub fn handle_put_obj_message(
    _message: &PutObjCommand,
    _session: &mut PlayerSession,
    _manager: &SessionManager,
) -> (r: Result<(), ProtocolError>)
    ensures
        r == Err::<(), ProtocolError>(ProtocolError::NotImplemented),
        *final(_session) == *old(_session),
{
    Err(ProtocolError::NotImplemented)
}

/// Handle one framed message: count it and stamp its arrival time
/// before anything else — accounting happens whatever the decode
/// outcome — then decode it by its identifier and drive the session
/// state machine. The registry receives a snapshot when a HELLO opens
/// the session; every failure leaves session state, identity and
/// registry untouched.
pub fn handle_user_packet(
    data: &[u8],
    session: &mut PlayerSession,
    manager: &mut SessionManager,
    now: i64,
) -> (r: Result<(), ProtocolError>)
    requires
        old(session).messages_count < u32::MAX,
    ensures
        final(session).messages_count == old(session).messages_count + 1,
        final(session).last_comm_time == now,
        data@.len() < 8 ==> r == Err::<(), ProtocolError>(ProtocolError::MalformedMessage)
            && spec_untouched(*old(session), *final(session), old(manager)@, final(manager)@),
        data@.len() >= 8 && !valid_utf8(spec_msg_type_bytes(data@)) ==> r == Err::<
            (),
            ProtocolError,
        >(ProtocolError::UnrecognizedCommand) && spec_untouched(
            *old(session),
            *final(session),
            old(manager)@,
            final(manager)@,
        ),
        spec_type_is(data@, "HELO"@) && spec_hello_ok(data@) && old(session).state
            == SessionState::Closed ==> {
            &&& r is Ok
            &&& final(session).state == SessionState::Active
            &&& final(session).player_name matches Some(u) && u@ == decode_utf8(
                spec_hello_user_bytes(data@),
            )
            &&& final(manager)@ == old(manager)@.push(*final(session))
        },
        spec_type_is(data@, "HELO"@) && spec_hello_ok(data@) && old(session).state
            == SessionState::Active ==> r == Err::<(), ProtocolError>(
            ProtocolError::SessionAlreadyOpen,
        ) && spec_untouched(*old(session), *final(session), old(manager)@, final(manager)@),
        spec_type_is(data@, "HELO"@) && !spec_hello_ok(data@) ==> r is Err && spec_untouched(
            *old(session),
            *final(session),
            old(manager)@,
            final(manager)@,
        ),
        spec_type_is(data@, "HELO"@) && data@.len() < 40 ==> r == Err::<(), ProtocolError>(
            ProtocolError::MalformedMessage,
        ),
        spec_type_is(data@, "HELO"@) && data@.len() >= 40 && !spec_hello_user_ok(data@) ==> (
        r matches Err(e) && e matches ProtocolError::ValidationError(f, v) && f
            == CommandField::User && v@ == spec_hello_user_bytes(data@)),
        spec_type_is(data@, "HELO"@) && data@.len() >= 40 && spec_hello_user_ok(data@)
            && !spec_hello_msg_ok(data@) ==> (r matches Err(e)
            && e matches ProtocolError::ValidationError(f, v) && f == CommandField::Message && v@
            == spec_hello_msg_bytes(data@)),
        spec_type_is(data@, "BYYE"@) ==> spec_untouched(
            *old(session),
            *final(session),
            old(manager)@,
            final(manager)@,
        ),
        spec_type_is(data@, "BYYE"@) && old(session).state == SessionState::Closed ==> r == Err::<
            (),
            ProtocolError,
        >(ProtocolError::SessionNotOpen),
        spec_type_is(data@, "BYYE"@) && old(session).state == SessionState::Active ==> r is Ok,
        spec_type_is(data@, "PUTOBJ"@) ==> r is Err && spec_untouched(
            *old(session),
            *final(session),
            old(manager)@,
            final(manager)@,
        ),
        spec_type_is(data@, "PUTOBJ"@) && data@.len() < 24 ==> r == Err::<(), ProtocolError>(
            ProtocolError::MalformedMessage,
        ),
        spec_type_is(data@, "PUTOBJ"@) && data@.len() >= 24 && spec_putobj_op(data@) > 2 ==> r
            == Err::<(), ProtocolError>(ProtocolError::UnknownOperation),
        spec_type_is(data@, "PUTOBJ"@) && data@.len() >= 24 && spec_putobj_op(data@) <= 2
            ==> match spec_props_read(data@, 24, spec_putobj_count(data@) as nat) {
            Ok(_) => r == Err::<(), ProtocolError>(ProtocolError::NotImplemented),
            Err((kind, ep)) => {
                if kind == PropReadError::Truncated {
                    r == Err::<(), ProtocolError>(ProtocolError::TruncatedMessage)
                } else {
                    r matches Err(e) && e matches ProtocolError::ValidationError(f, v) && f
                        == CommandField::PropertyName && v@ == spec_trim(
                        data@.subrange(ep, ep + 8),
                    )
                }
            },
        },
        data@.len() >= 8 && valid_utf8(spec_msg_type_bytes(data@)) && !spec_type_is(
            data@,
            "HELO"@,
        ) && !spec_type_is(data@, "BYYE"@) && !spec_type_is(data@, "PUTOBJ"@) ==> r == Err::<
            (),
            ProtocolError,
        >(ProtocolError::UnrecognizedCommand) && spec_untouched(
            *old(session),
            *final(session),
            old(manager)@,
            final(manager)@,
        ),
{
    proof {
        reveal_strlit("HELO");
        reveal_strlit("BYYE");
        reveal_strlit("PUTOBJ");
        assert("HELO"@ != "BYYE"@) by {
            assert("HELO"@.index(0) == 'H');
            assert("BYYE"@.index(0) == 'B');
        }
        assert("HELO"@ != "PUTOBJ"@) by {
            assert("HELO"@.len() == 4);
            assert("PUTOBJ"@.len() == 6);
        }
        assert("BYYE"@ != "PUTOBJ"@) by {
            assert("BYYE"@.len() == 4);
            assert("PUTOBJ"@.len() == 6);
        }
    }
    session.increment_msg_count();
    session.last_comm_time = now;
    if data.len() < 8 {
        return Err(ProtocolError::MalformedMessage);
    }
    let message_type = match find_message_type(data) {
        Some(t) => t,
        None => {
            return Err(ProtocolError::UnrecognizedCommand);
        },
    };
    let helo: String = "HELO".to_owned();
    let byye: String = "BYYE".to_owned();
    let putobj: String = "PUTOBJ".to_owned();
    if message_type == helo {
        let msg = match HelloCommand::from_client_message(data) {
            Ok(m) => m,
            Err(e) => {
                return Err(e);
            },
        };
        handle_hello_message(&msg, session, manager)
    } else if message_type == byye {
        let msg = match ByeCommand::from_client_message(data) {
            Ok(m) => m,
            Err(e) => {
                return Err(e);
            },
        };
        handle_bye_message(&msg, session, manager)
    } else if message_type == putobj {
        let msg = match PutObjCommand::from_client_message(data) {
            Ok(m) => m,
            Err(e) => {
                return Err(e);
            },
        };
        handle_put_obj_message(&msg, session, manager)
    } else {
        Err(ProtocolError::UnrecognizedCommand)
    }
}

} // verus!
