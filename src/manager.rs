//! The decisions of one connection: the handshake, turning ingested frames into history
//! records, the fan-out of new records as frames, and the cleanup on disconnect. The
//! socket work around them belongs to the caller.

use vstd::prelude::*;
use crate::messages_pool::{
    appended, next_cursor, read_since, views, MessageView, MessagesPool, PoolMessage,
};
use crate::state::{can_register, join_notice, leave_notice, notice, StateData, UserData};
use crate::text::{chars_of, trim_bounds, trimmed};
use crate::types::{
    build, decode, encode, header_views, read_header, AuthConnectionError, AuthStatus,
    HeaderView, IncomingMessageError, SignalData, SignalHeader, SignalType, SignalView,
};

verus! {

/// Relies on `uuid::Uuid::new_v4` and its `Display` impl: a random version-4 id, written in
/// the hyphenated form of 36 characters.
#[verifier::external_body]
fn new_message_id() -> (r: String)
    ensures
        r@.len() == 36,
{
    uuid::Uuid::new_v4().to_string()
}

/// The username that a handshake frame asks for: the frame must decode to a connection
/// signal with a non-empty username.
pub open spec fn handshake_username(frame: Seq<char>) -> Option<Seq<char>> {
    match decode(frame) {
        Some(d) => if d.signal_type == Some(SignalType::Connection) && d.username is Some
            && d.username->0.len() > 0 {
            d.username
        } else {
            None
        },
        None => None,
    }
}

/// The reply to a handshake.
pub open spec fn auth_reply(status: AuthStatus) -> SignalView {
    SignalView { auth_status: Some(status), ..SignalView::empty() }
}

/// The author and the trimmed body of an ingested frame, when it is accepted: the frame
/// must decode to a signal with a body and a username.
pub open spec fn incoming_fields(frame: Seq<char>) -> Option<(Seq<char>, Seq<char>)> {
    match decode(frame) {
        Some(d) => if d.with_message && d.message is Some && d.username is Some {
            Some((d.username->0, trimmed(d.message->0)))
        } else {
            None
        },
        None => None,
    }
}

/// The record that an accepted frame becomes under `id`: a user message.
pub open spec fn incoming_entry(fields: (Seq<char>, Seq<char>), id: Seq<char>) -> MessageView {
    MessageView { id, username: fields.0, message: fields.1, from_server: false }
}

/// The signal that delivers a history record to a client.
pub open spec fn fanout_signal(m: MessageView) -> SignalView {
    SignalView {
        username: Some(m.username),
        auth_status: None,
        signal_type: Some(SignalType::NewMessage),
        with_message: true,
        message: Some(m.message),
        server_message: m.from_server,
    }
}

/// The frames that deliver a run of records, in order.
pub open spec fn fanout_frames(ms: Seq<MessageView>) -> Seq<Seq<char>> {
    ms.map_values(|m: MessageView| encode(fanout_signal(m)))
}

/// The views of a sequence of strings.
pub open spec fn string_views(s: Seq<String>) -> Seq<Seq<char>> {
    s.map_values(|f: String| f@)
}

/// The frame that replies to a handshake with `status`.
pub fn auth_frame(status: AuthStatus) -> (r: String)
    ensures
        r@ == encode(auth_reply(status)),
{
    let mut headers: Vec<SignalHeader> = Vec::new();
    headers.push(SignalHeader::AuthStatus(status));
    let ghost hs = header_views(headers@);
    assert(hs.drop_last() =~= Seq::<HeaderView>::empty());
    assert(build(Seq::<HeaderView>::empty(), Seq::empty()) == SignalView::empty());
    assert(hs.last() == HeaderView::AuthStatus(status));
    assert(build(hs, Seq::empty()) == read_header(SignalView::empty(), HeaderView::AuthStatus(status)));
    let data = SignalData::new(headers, None);
    assert(data@ == auth_reply(status));
    data.to_string()
}

/// The frame that delivers one record.
pub fn fanout_frame(m: &PoolMessage) -> (r: String)
    ensures
        r@ == encode(fanout_signal(m@)),
{
    let data = SignalData {
        username: Some(m.username.clone()),
        auth_status: None,
        signal_type: Some(SignalType::NewMessage),
        with_message: true,
        message: Some(m.message.clone()),
        server_message: m.from_server,
    };
    data.to_string()
}

/// The record that the frame `signal` becomes under `id`, or the error for a frame that does
/// not decode or lacks a body or a username.
pub fn incoming_message(signal: &str, id: String) -> (r: Result<PoolMessage, IncomingMessageError>)
    ensures
        match r {
            Ok(m) => incoming_fields(signal@) is Some && m@ == incoming_entry(
                incoming_fields(signal@)->0,
                id@,
            ),
            Err(_) => incoming_fields(signal@) is None,
        },
{
    let data = match SignalData::from_str(signal) {
        Ok(d) => d,
        Err(_) => {
            return Err(IncomingMessageError);
        },
    };
    if !data.with_message {
        return Err(IncomingMessageError);
    }
    let username = match data.username {
        Some(u) => u,
        None => {
            return Err(IncomingMessageError);
        },
    };
    let body = match data.message {
        Some(b) => b,
        None => {
            return Err(IncomingMessageError);
        },
    };
    let cs = chars_of(body.as_str());
    let (a, b) = trim_bounds(&cs, 0, cs.len());
    assert(cs@.subrange(0, cs@.len() as int) =~= body@);
    let message = body.as_str().substring_char(a, b).to_owned();
    Ok(PoolMessage::new(id, username, message, false))
}

/// The state of one connection: who it authenticated as, how far its fan-out has read the
/// history, and where it comes from.
pub struct Manager {
    pub last_read_message_id: String,
    pub connected_user_username: Option<String>,
    pub connected_peer_addr: String,
}

impl Manager {
    /// A connection from `connected_peer_addr`, not yet authenticated, whose fan-out has
    /// read nothing.
    pub fn new(connected_peer_addr: String) -> (r: Manager)
        ensures
            r.last_read_message_id@ == Seq::<char>::empty(),
            r.connected_user_username is None,
            r.connected_peer_addr == connected_peer_addr,
    {
        Manager {
            last_read_message_id: String::new(),
            connected_user_username: None,
            connected_peer_addr,
        }
    }

    /// The frame that denies a handshake.
    pub fn deny_auth(&self) -> (r: String)
        ensures
            r@ == encode(auth_reply(AuthStatus::DENIED)),
    {
        auth_frame(AuthStatus::DENIED)
    }

    /// Runs the handshake on its first frame, with `id` for the join notice. It succeeds
    /// exactly when the frame asks for a username that is not taken: the user is then
    /// registered at this connection's address, the join notice is broadcast, the connection
    /// is authenticated as that user, and the accepting reply is returned. Otherwise
    /// nothing changes.
    pub fn auth_with_id(
        &mut self,
        state: &mut StateData,
        pool: &mut MessagesPool,
        signal: &str,
        id: String,
    ) -> (r: Result<String, AuthConnectionError>)
        requires
            old(pool).wf(),
        ensures
            final(pool).wf(),
            final(state).settings == old(state).settings,
            final(self).last_read_message_id == old(self).last_read_message_id,
            final(self).connected_peer_addr == old(self).connected_peer_addr,
            r is Ok <==> (handshake_username(signal@) is Some && can_register(
                old(state).users@,
                handshake_username(signal@)->0,
            )),
            match r {
                Ok(reply) => {
                    let u = handshake_username(signal@)->0;
                    &&& reply@ == encode(auth_reply(AuthStatus::ACCEPTED))
                    &&& final(self).connected_user_username is Some
                    &&& final(self).connected_user_username->0@ == u
                    &&& final(state).users@ == old(state).users@.insert(
                        u,
                        (UserData { address: old(self).connected_peer_addr }),
                    )
                    &&& final(pool)@ == appended(old(pool)@, notice(id@, join_notice(u)))
                },
                Err(_) => {
                    &&& final(self).connected_user_username == old(self).connected_user_username
                    &&& final(state).users@ == old(state).users@
                    &&& final(pool)@ == old(pool)@
                },
            },
    {
        let data = match SignalData::from_str(signal) {
            Ok(d) => d,
            Err(_) => {
                return Err(AuthConnectionError);
            },
        };
        match data.signal_type {
            Some(SignalType::Connection) => {},
            _ => {
                return Err(AuthConnectionError);
            },
        }
        let username = match data.username {
            Some(u) => u,
            None => {
                return Err(AuthConnectionError);
            },
        };
        if username.as_str().is_empty() {
            return Err(AuthConnectionError);
        }
        match state.register(pool, username.clone(), self.connected_peer_addr.clone(), id) {
            Ok(()) => {},
            Err(e) => {
                return Err(e);
            },
        }
        self.connected_user_username = Some(username);
        Ok(auth_frame(AuthStatus::ACCEPTED))
    }

    /// Runs the handshake with a fresh id for the join notice; see [`Manager::auth_with_id`].
    pub fn auth(&mut self, state: &mut StateData, pool: &mut MessagesPool, signal: &str) -> (r:
        Result<String, AuthConnectionError>)
        requires
            old(pool).wf(),
        ensures
            final(pool).wf(),
            final(state).settings == old(state).settings,
            final(self).last_read_message_id == old(self).last_read_message_id,
            final(self).connected_peer_addr == old(self).connected_peer_addr,
            r is Ok <==> (handshake_username(signal@) is Some && can_register(
                old(state).users@,
                handshake_username(signal@)->0,
            )),
            match r {
                Ok(reply) => {
                    let u = handshake_username(signal@)->0;
                    &&& reply@ == encode(auth_reply(AuthStatus::ACCEPTED))
                    &&& final(self).connected_user_username is Some
                    &&& final(self).connected_user_username->0@ == u
                    &&& final(state).users@ == old(state).users@.insert(
                        u,
                        (UserData { address: old(self).connected_peer_addr }),
                    )
                    &&& exists|id: Seq<char>|
                        id.len() == 36 && final(pool)@ == appended(
                            old(pool)@,
                            #[trigger] notice(id, join_notice(u)),
                        )
                },
                Err(_) => {
                    &&& final(self).connected_user_username == old(self).connected_user_username
                    &&& final(state).users@ == old(state).users@
                    &&& final(pool)@ == old(pool)@
                },
            },
    {
        let id = new_message_id();
        let ghost idv = id@;
        let r = self.auth_with_id(state, pool, signal, id);
        proof {
            if r is Ok {
                let u = handshake_username(signal@)->0;
                assert(final(pool)@ == appended(old(pool)@, notice(idv, join_notice(u))));
            }
        }
        r
    }

    /// Turns an ingested frame into a history record under a fresh id and appends it; a
    /// frame that does not decode or lacks a body or a username is rejected and nothing
    /// changes.
    pub fn process_incoming_message(pool: &mut MessagesPool, signal: &str) -> (r: Result<
        (),
        IncomingMessageError,
    >)
        requires
            old(pool).wf(),
        ensures
            final(pool).wf(),
            r is Ok <==> incoming_fields(signal@) is Some,
            r is Ok ==> exists|id: Seq<char>|
                id.len() == 36 && final(pool)@ == appended(
                    old(pool)@,
                    #[trigger] incoming_entry(incoming_fields(signal@)->0, id),
                ),
            r is Err ==> final(pool)@ == old(pool)@,
    {
        let id = new_message_id();
        let ghost idv = id@;
        match incoming_message(signal, id) {
            Ok(m) => {
                pool.push(m);
                assert(final(pool)@ == appended(
                    old(pool)@,
                    incoming_entry(incoming_fields(signal@)->0, idv),
                ));
                Ok(())
            },
            Err(e) => Err(e),
        }
    }

    /// One round of fan-out: the frames for every record that is new since this
    /// connection's cursor, in arrival order, and the cursor moved past them (see
    /// [`read_since`]). On an empty history there is nothing, and the cursor stays.
    pub fn poll_messages_pool(&mut self, pool: &MessagesPool) -> (frames: Vec<String>)
        requires
            pool.wf(),
        ensures
            string_views(frames@) == fanout_frames(
                read_since(pool@, old(self).last_read_message_id@).0,
            ),
            final(self).last_read_message_id@ == next_cursor(
                pool@,
                old(self).last_read_message_id@,
            ),
            final(self).connected_user_username == old(self).connected_user_username,
            final(self).connected_peer_addr == old(self).connected_peer_addr,
    {
        let mut frames: Vec<String> = Vec::new();
        match pool.has_new(self.last_read_message_id.as_str()) {
            Some((msgs, cursor)) => {
                let ghost ms = read_since(pool@, self.last_read_message_id@).0;
                if let Some(last) = cursor {
                    self.last_read_message_id = last;
                }
                let n = msgs.len();
                let mut i: usize = 0;
                while i < n
                    invariant
                        n == msgs@.len() == ms.len(),
                        i <= n,
                        views(msgs@) == ms,
                        string_views(frames@) =~= fanout_frames(ms.take(i as int)),
                    decreases n - i,
                {
                    let f = fanout_frame(&msgs[i]);
                    let ghost before = frames@;
                    frames.push(f);
                    assert(ms.take(i + 1) =~= ms.take(i as int).push(ms[i as int]));
                    assert(string_views(frames@) =~= string_views(before).push(f@));
                    i = i + 1;
                }
                assert(ms.take(n as int) =~= ms);
            },
            None => {
                assert(fanout_frames(read_since(pool@, self.last_read_message_id@).0) =~= Seq::<
                    Seq<char>,
                >::empty());
            },
        }
        frames
    }

    /// Cleans up after the connection, once: an authenticated user is unregistered (with its
    /// leave notice, under a fresh id) and the connection forgets it, so a second call does
    /// nothing.
    pub fn process_disconnection(&mut self, state: &mut StateData, pool: &mut MessagesPool)
        requires
            old(pool).wf(),
        ensures
            final(pool).wf(),
            final(state).settings == old(state).settings,
            final(self).connected_user_username is None,
            final(self).last_read_message_id == old(self).last_read_message_id,
            final(self).connected_peer_addr == old(self).connected_peer_addr,
            match old(self).connected_user_username {
                Some(u) => if old(state).users@.contains_key(u@) {
                    &&& final(state).users@ == old(state).users@.remove(u@)
                    &&& exists|id: Seq<char>|
                        id.len() == 36 && final(pool)@ == appended(
                            old(pool)@,
                            #[trigger] notice(id, leave_notice(u@)),
                        )
                } else {
                    &&& final(state).users@ == old(state).users@
                    &&& final(pool)@ == old(pool)@
                },
                None => {
                    &&& final(state).users@ == old(state).users@
                    &&& final(pool)@ == old(pool)@
                },
            },
    {
        match &self.connected_user_username {
            Some(u) => {
                let id = new_message_id();
                let ghost idv = id@;
                state.unregister(pool, u.as_str(), id);
                proof {
                    if old(state).users@.contains_key(u@) {
                        assert(final(pool)@ == appended(old(pool)@, notice(idv, leave_notice(u@))));
                    }
                }
            },
            None => {},
        }
        self.connected_user_username = None;
    }
}

} // verus!
