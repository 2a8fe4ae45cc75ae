//! Per-connection session state and the session registry.
//!
//! A session is exclusively owned by its connection's unit of work; the
//! registry holds independent snapshots keyed by player name and is
//! reconciled with value copies at well-defined points. Callers guard
//! one registry instance with a mutual-exclusion lock; every operation
//! here is a single read-modify-write of the collection.

use vstd::prelude::*;

use crate::clock::now_timestamp;

verus! {

/// The connection state of a session.
#[derive(PartialEq, Eq, Structural, Copy, Clone, Debug)]
pub enum SessionState {
    Closed,
    Active,
}

/// One connected client's session: protocol state, identity, message
/// accounting and the last-communication timestamp. The transport
/// socket is owned by the connection handler outside the core.
#[derive(Debug)]
pub struct PlayerSession {
    pub state: SessionState,
    /// Seconds since the Unix epoch of the last received message.
    pub last_comm_time: i64,
    pub messages_count: u32,
    /// Unset until a HELLO is accepted; once set, the registry key.
    pub player_name: Option<String>,
}

impl Clone for PlayerSession {
    /// A clone equals the original, field for field.
    fn clone(&self) -> (res: Self)
        ensures
            res == *self,
    {
        PlayerSession {
            state: self.state,
            last_comm_time: self.last_comm_time,
            messages_count: self.messages_count,
            player_name: match &self.player_name {
                Some(name) => Some(name.clone()),
                None => None,
            },
        }
    }
}

/// True when `session` carries the identity `playername`.
pub open spec fn spec_session_matches(session: PlayerSession, playername: Seq<char>) -> bool {
    session.player_name is Some && session.player_name->0@ == playername
}

/// True when some entry of `sessions` carries the identity `playername`.
pub open spec fn spec_has_session(sessions: Seq<PlayerSession>, playername: Seq<char>) -> bool {
    exists|i: int|
        0 <= i < sessions.len() && #[trigger] spec_session_matches(sessions[i], playername)
}

/// True when `i` is the first index of `sessions` whose entry carries
/// the identity `playername`.
pub open spec fn spec_first_session_index(
    sessions: Seq<PlayerSession>,
    playername: Seq<char>,
    i: int,
) -> bool {
    &&& 0 <= i < sessions.len()
    &&& spec_session_matches(sessions[i], playername)
    &&& forall|j: int| 0 <= j < i ==> !(#[trigger] spec_session_matches(sessions[j], playername))
}

/// Sessions compare by identity: equal when both carry a player name
/// and the names agree.
impl PartialEq for PlayerSession {
    fn eq(&self, other: &Self) -> (r: bool) {
        match (&self.player_name, &other.player_name) {
            (Some(left), Some(right)) => *left == *right,
            _ => false,
        }
    }
}

impl vstd::std_specs::cmp::PartialEqSpecImpl for PlayerSession {
    open spec fn obeys_eq_spec() -> bool {
        true
    }

    open spec fn eq_spec(&self, other: &Self) -> bool {
        &&& self.player_name is Some
        &&& other.player_name is Some
        &&& self.player_name->0@ == other.player_name->0@
    }
}

impl PlayerSession {
    /// Count one more received message; the counter only ever grows.
    pub fn increment_msg_count(&mut self)
        requires
            old(self).messages_count < u32::MAX,
        ensures
            final(self).messages_count == old(self).messages_count + 1,
            final(self).state == old(self).state,
            final(self).last_comm_time == old(self).last_comm_time,
            final(self).player_name == old(self).player_name,
    {
        self.messages_count = self.messages_count + 1;
    }

    /// Set the session's identity.
    pub fn set_username(&mut self, username: String)
        ensures
            final(self).player_name == Some(username),
            final(self).state == old(self).state,
            final(self).last_comm_time == old(self).last_comm_time,
            final(self).messages_count == old(self).messages_count,
    {
        self.player_name = Some(username);
    }
}

/// Create the initial session of a freshly accepted connection: closed,
/// without identity, with the message counter at zero and the
/// last-communication timestamp taken from the wall clock.
pub fn create_player_session() -> (session: PlayerSession)
    ensures
        session.state == SessionState::Closed,
        session.messages_count == 0,
        session.player_name is None,
{
    PlayerSession {
        state: SessionState::Closed,
        last_comm_time: now_timestamp(),
        messages_count: 0,
        player_name: None,
    }
}

/// Checks if a session matches for a particular username.
///
/// This is a shorthand method to avoid dealing with the optional
/// username.
pub fn is_session_match(session: &PlayerSession, playername: &str) -> (r: bool)
    ensures
        r == spec_session_matches(*session, playername@),
{
    match &session.player_name {
        Some(name) => {
            let owned = playername.to_owned();
            *name == owned
        },
        None => false,
    }
}

/// The session registry: the shared list of session snapshots, keyed by
/// player name once one is set.
pub struct SessionManager {
    sessions: Vec<PlayerSession>,
}

impl View for SessionManager {
    type V = Seq<PlayerSession>;

    closed spec fn view(&self) -> Seq<PlayerSession> {
        self.sessions@
    }
}

impl SessionManager {
    /// Create a new session list.
    pub fn new() -> (manager: SessionManager)
        ensures
            manager@ == Seq::<PlayerSession>::empty(),
    {
        SessionManager { sessions: Vec::new() }
    }

    /// Borrow the first session of the list.
    pub fn get_first_session(&self) -> (r: &PlayerSession)
        requires
            self@.len() > 0,
        ensures
            *r == self@[0],
    {
        &self.sessions[0]
    }

    /// Add a session to the list. Always appends: duplicate identities
    /// may coexist until reconciled through `save_session`.
    pub fn add_session(&mut self, new_session: PlayerSession)
        ensures
            final(self)@ == old(self)@.push(new_session),
    {
        self.sessions.push(new_session);
    }

    /// Reconcile the registry with a fresh session snapshot: replace
    /// the first entry whose identity equals the session's. A session
    /// without an identity, or one whose identity is not stored,
    /// changes nothing — reconciliation never inserts.
    pub fn save_session(&mut self, session: &PlayerSession)
        ensures
            session.player_name is None ==> final(self)@ == old(self)@,
            session.player_name is Some && !spec_has_session(
                old(self)@,
                session.player_name->0@,
            ) ==> final(self)@ == old(self)@,
            session.player_name is Some && spec_has_session(old(self)@, session.player_name->0@)
                ==> exists|i: int|
                {
                    &&& #[trigger] spec_first_session_index(old(self)@, session.player_name->0@, i)
                    &&& final(self)@ == old(self)@.update(i, *session)
                },
    {
        let name = match &session.player_name {
            Some(n) => n.clone(),
            None => { return ; },
        };
        let res = self.find_session_index(name.as_str());
        match res {
            Some(i) => {
                self.sessions[i] = session.clone();
            },
            None => {},
        }
    }

    /// Remove the first entry whose identity equals the session's. A
    /// session without an identity, or an absent identity, is a no-op,
    /// not an error.
    pub fn remove_session(&mut self, session: &PlayerSession)
        ensures
            session.player_name is None ==> final(self)@ == old(self)@,
            session.player_name is Some && !spec_has_session(
                old(self)@,
                session.player_name->0@,
            ) ==> final(self)@ == old(self)@,
            session.player_name is Some && spec_has_session(old(self)@, session.player_name->0@)
                ==> exists|i: int|
                {
                    &&& #[trigger] spec_first_session_index(old(self)@, session.player_name->0@, i)
                    &&& final(self)@ == old(self)@.remove(i)
                },
    {
        let name = match &session.player_name {
            Some(n) => n.clone(),
            None => { return ; },
        };
        let res = self.find_session_index(name.as_str());
        match res {
            Some(i) => {
                self.sessions.remove(i);
            },
            None => {},
        }
    }

    /// Find the index of the first stored session whose identity is
    /// `playername`.
    fn find_session_index(&self, playername: &str) -> (r: Option<usize>)
        ensures
            match r {
                Some(i) => spec_first_session_index(self@, playername@, i as int),
                None => !spec_has_session(self@, playername@),
            },
    {
        let mut i: usize = 0;
        while i < self.sessions.len()
            invariant
                i <= self.sessions.len(),
                forall|j: int|
                    0 <= j < i ==> !(#[trigger] spec_session_matches(self@[j], playername@)),
            decreases self.sessions.len() - i,
        {
            if is_session_match(&self.sessions[i], playername) {
                return Some(i);
            }
            i += 1;
        }
        None
    }
}

} // verus!
