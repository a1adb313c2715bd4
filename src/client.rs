//! The client's side of the protocol: the frames it sends, how it reads the handshake reply,
//! and the chat lines it shows for the frames it receives.

use vstd::prelude::*;
use crate::text::{chars_of, seg_eq};
use crate::types::{decode, encode, AuthStatus, SignalData, SignalType, SignalView};

verus! {

/// Whether `pat` occurs in `s`.
pub open spec fn occurs_in(s: Seq<char>, pat: Seq<char>) -> bool {
    exists|i: int| 0 <= i && i + pat.len() <= s.len() && #[trigger] s.subrange(i, i + pat.len()) == pat
}

/// The handshake signal that asks to join as `username`.
pub open spec fn join_request(username: Seq<char>) -> SignalView {
    SignalView {
        username: Some(username),
        signal_type: Some(SignalType::Connection),
        ..SignalView::empty()
    }
}

/// The signal that sends `text` as `username`.
pub open spec fn chat_request(username: Seq<char>, text: Seq<char>) -> SignalView {
    SignalView {
        username: Some(username),
        signal_type: Some(SignalType::NewMessage),
        with_message: true,
        message: Some(text),
        ..SignalView::empty()
    }
}

/// A line of the chat as the client shows it.
pub enum ChatLine {
    /// A broker notice, shown as its text.
    Notice(String),
    /// A user's message, shown as `<username> message`.
    Message(String),
}

/// The chat text of a user's message.
pub open spec fn message_text(username: Seq<char>, message: Seq<char>) -> Seq<char> {
    "<"@ + username + "> "@ + message
}

/// The chat line that a received frame shows, if any: only a decodable new-message signal
/// with a body shows one, and a user's message also needs a username.
pub open spec fn chat_line_of(frame: Seq<char>) -> Option<(bool, Seq<char>)> {
    match decode(frame) {
        Some(d) => if d.signal_type == Some(SignalType::NewMessage) && d.message is Some {
            if d.server_message {
                Some((true, d.message->0))
            } else if d.username is Some {
                Some((false, message_text(d.username->0, d.message->0)))
            } else {
                None
            }
        } else {
            None
        },
        None => None,
    }
}

/// The frame that asks to join as `username`.
pub fn connection_request(username: &str) -> (r: String)
    ensures
        r@ == encode(join_request(username@)),
{
    let data = SignalData {
        username: Some(username.to_owned()),
        auth_status: None,
        signal_type: Some(SignalType::Connection),
        with_message: false,
        message: None,
        server_message: false,
    };
    data.to_string()
}

/// The frame that sends `text` as `username`.
pub fn message_request(username: &str, text: &str) -> (r: String)
    ensures
        r@ == encode(chat_request(username@, text@)),
{
    let data = SignalData {
        username: Some(username.to_owned()),
        auth_status: None,
        signal_type: Some(SignalType::NewMessage),
        with_message: true,
        message: Some(text.to_owned()),
        server_message: false,
    };
    data.to_string()
}

/// Whether a handshake reply denies the client: it holds the word of the denied status.
pub fn is_denied(reply: &str) -> (r: bool)
    ensures
        r == occurs_in(reply@, AuthStatus::DENIED.text()),
{
    proof {
        reveal_strlit("DENIED");
    }
    let ghost pat = AuthStatus::DENIED.text();
    let cs = chars_of(reply);
    let n = cs.len();
    let mut i: usize = 0;
    while i < n && n - i >= 6
        invariant
            i <= n == cs@.len(),
            cs@ == reply@,
            pat == "DENIED"@,
            pat.len() == 6,
            forall|j: int| 0 <= j < i ==> #[trigger] cs@.subrange(j, j + 6) != pat,
        decreases n - i,
    {
        if seg_eq(&cs, i, i + 6, "DENIED") {
            return true;
        }
        i = i + 1;
    }
    false
}

/// The chat line that a received frame shows; see [`chat_line_of`].
pub fn chat_line(frame: &str) -> (r: Option<ChatLine>)
    ensures
        match r {
            Some(ChatLine::Notice(t)) => chat_line_of(frame@) == Some((true, t@)),
            Some(ChatLine::Message(t)) => chat_line_of(frame@) == Some((false, t@)),
            None => chat_line_of(frame@) is None,
        },
{
    let data = match SignalData::from_str(frame) {
        Ok(d) => d,
        Err(_) => {
            return None;
        },
    };
    match data.signal_type {
        Some(SignalType::NewMessage) => {},
        _ => {
            return None;
        },
    }
    let message = match data.message {
        Some(m) => m,
        None => {
            return None;
        },
    };
    if data.server_message {
        return Some(ChatLine::Notice(message));
    }
    match data.username {
        Some(u) => {
            let mut text = String::new();
            text.append("<");
            text.append(u.as_str());
            text.append("> ");
            text.append(message.as_str());
            assert(text@ =~= message_text(u@, message@));
            Some(ChatLine::Message(text))
        },
        None => None,
    }
}

} // verus!
