//! The broker's registry of authenticated users, and the notices it broadcasts when a
//! user joins or leaves.

use vstd::hash_map::StringHashMap;
use vstd::prelude::*;
use crate::messages_pool::{appended, MessageView, MessagesPool, PoolMessage};
use crate::settings::Settings;
use crate::types::AuthConnectionError;

verus! {

/// What the registry keeps of a connected user.
#[derive(Debug, Clone)]
pub struct UserData {
    pub address: String,
}

/// The text of the notice broadcast when `username` joins.
pub open spec fn join_notice(username: Seq<char>) -> Seq<char> {
    username + " joined the chat!"@
}

/// The text of the notice broadcast when `username` leaves.
pub open spec fn leave_notice(username: Seq<char>) -> Seq<char> {
    username + " left the chat!"@
}

/// A broker notice: no username, and marked as coming from the broker.
pub open spec fn notice(id: Seq<char>, text: Seq<char>) -> MessageView {
    MessageView { id, username: Seq::empty(), message: text, from_server: true }
}

/// Whether a registration of `username` succeeds: the name must not be taken.
pub open spec fn can_register(users: Map<Seq<char>, UserData>, username: Seq<char>) -> bool {
    !users.contains_key(username)
}

/// The settings and the registry of connected users, keyed by username.
pub struct StateData {
    pub settings: Settings,
    pub users: StringHashMap<UserData>,
}

impl StateData {
    pub fn new(settings: Settings) -> (r: StateData)
        ensures
            r.settings == settings,
            r.users@ == Map::<Seq<char>, UserData>::empty(),
    {
        StateData { settings, users: StringHashMap::new() }
    }

    /// Registers `username` at `address` and broadcasts its join notice under `id`; a name
    /// that is taken (exact match) is rejected and nothing changes.
    pub fn register(
        &mut self,
        pool: &mut MessagesPool,
        username: String,
        address: String,
        id: String,
    ) -> (r: Result<(), AuthConnectionError>)
        requires
            old(pool).wf(),
        ensures
            final(pool).wf(),
            final(self).settings == old(self).settings,
            r is Ok <==> can_register(old(self).users@, username@),
            r is Ok ==> final(self).users@ == old(self).users@.insert(
                username@,
                (UserData { address }),
            ),
            r is Ok ==> final(pool)@ == appended(old(pool)@, notice(id@, join_notice(username@))),
            r is Err ==> final(self).users@ == old(self).users@,
            r is Err ==> final(pool)@ == old(pool)@,
    {
        if self.users.contains_key(username.as_str()) {
            return Err(AuthConnectionError);
        }
        let mut text = username.clone();
        text.append(" joined the chat!");
        self.users.insert(username, UserData { address });
        pool.push(PoolMessage::new(id, String::new(), text, true));
        Ok(())
    }

    /// Removes `username` and broadcasts its leave notice under `id`; a name that is not
    /// registered changes nothing and broadcasts nothing.
    pub fn unregister(&mut self, pool: &mut MessagesPool, username: &str, id: String)
        requires
            old(pool).wf(),
        ensures
            final(pool).wf(),
            final(self).settings == old(self).settings,
            old(self).users@.contains_key(username@) ==> final(self).users@ == old(
                self,
            ).users@.remove(username@),
            old(self).users@.contains_key(username@) ==> final(pool)@ == appended(
                old(pool)@,
                notice(id@, leave_notice(username@)),
            ),
            !old(self).users@.contains_key(username@) ==> final(self).users@ == old(self).users@,
            !old(self).users@.contains_key(username@) ==> final(pool)@ == old(pool)@,
    {
        if self.users.contains_key(username) {
            self.users.remove(username);
            let mut text = username.to_owned();
            text.append(" left the chat!");
            pool.push(PoolMessage::new(id, String::new(), text, true));
        }
    }
}

/// Two registrations of one username never both succeed: once the first has, the name is
/// taken and the second is rejected.
pub proof fn lemma_register_rejects_taken(
    users: Map<Seq<char>, UserData>,
    username: Seq<char>,
    data: UserData,
)
    ensures
        !can_register(users.insert(username, data), username),
{
}

/// Once a username is removed, it is unknown: a second removal finds nothing to remove and
/// so changes nothing and broadcasts nothing.
pub proof fn lemma_removed_is_unknown(users: Map<Seq<char>, UserData>, username: Seq<char>)
    ensures
        !users.remove(username).contains_key(username),
{
}

} // verus!
