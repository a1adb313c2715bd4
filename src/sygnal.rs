//! The earlier dialect of the protocol, in which a client could also send a password and a
//! key, and announced itself as a consumer or a producer. Its frames have the same shape as
//! those of [`crate::types`]; the signal type line is written `SYGNAL_TYPE`.

use vstd::prelude::*;
use crate::text::{chars_of, seg_eq, trim_bounds, trimmed};
use crate::types::{
    colon_in, crlf, find_term, line_name, line_value, opt_view, strip_term, term_in, terminator,
    AuthStatus,
};

pub use crate::types::{AuthConnectionError, IncomingMessageError};

verus! {

/// A frame that does not decode to a signal of this dialect.
#[derive(Debug, Clone, Copy, PartialEq, Eq)]
pub struct ParseSygnalDataError;

/// What a signal of this dialect is for: joining as a consumer or as a producer, or
/// carrying a chat message.
#[derive(Debug, Clone, Copy, PartialEq, Eq)]
pub enum SygnalType {
    ConnectionConsumer,
    ConnectionProducer,
    NewMessage,
}

impl SygnalType {
    /// The wire word of this signal type.
    pub open spec fn text(self) -> Seq<char> {
        match self {
            SygnalType::ConnectionConsumer => "CONNECTION_CONSUMER"@,
            SygnalType::ConnectionProducer => "CONNECTION_PRODUCER"@,
            SygnalType::NewMessage => "NEW_MESSAGE"@,
        }
    }

    /// The signal type whose wire word is `s`, if any.
    pub open spec fn parse(s: Seq<char>) -> Option<SygnalType> {
        if s == "CONNECTION_CONSUMER"@ {
            Some(SygnalType::ConnectionConsumer)
        } else if s == "CONNECTION_PRODUCER"@ {
            Some(SygnalType::ConnectionProducer)
        } else if s == "NEW_MESSAGE"@ {
            Some(SygnalType::NewMessage)
        } else {
            None
        }
    }

    pub fn from_str(s: &str) -> (r: Result<SygnalType, ParseSygnalDataError>)
        ensures
            match r {
                Ok(t) => SygnalType::parse(s@) == Some(t),
                Err(_) => SygnalType::parse(s@) is None,
            },
    {
        let cs = chars_of(s);
        assert(cs@.subrange(0, cs@.len() as int) =~= s@);
        SygnalType::parse_chars(&cs, 0, cs.len())
    }

    fn parse_chars(cs: &Vec<char>, from: usize, to: usize) -> (r: Result<
        SygnalType,
        ParseSygnalDataError,
    >)
        requires
            from <= to <= cs.len(),
        ensures
            match r {
                Ok(t) => SygnalType::parse(cs@.subrange(from as int, to as int)) == Some(t),
                Err(_) => SygnalType::parse(cs@.subrange(from as int, to as int)) is None,
            },
    {
        if seg_eq(cs, from, to, "CONNECTION_CONSUMER") {
            Ok(SygnalType::ConnectionConsumer)
        } else if seg_eq(cs, from, to, "CONNECTION_PRODUCER") {
            Ok(SygnalType::ConnectionProducer)
        } else if seg_eq(cs, from, to, "NEW_MESSAGE") {
            Ok(SygnalType::NewMessage)
        } else {
            Err(ParseSygnalDataError)
        }
    }

    pub fn to_string(&self) -> (r: String)
        ensures
            r@ == self.text(),
    {
        match self {
            SygnalType::ConnectionConsumer => "CONNECTION_CONSUMER".to_owned(),
            SygnalType::ConnectionProducer => "CONNECTION_PRODUCER".to_owned(),
            SygnalType::NewMessage => "NEW_MESSAGE".to_owned(),
        }
    }
}

/// One header line of a frame of this dialect.
pub enum SygnalHeader {
    Username(String),
    Password(String),
    Key(String),
    AuthStatus(AuthStatus),
    SygnalType(SygnalType),
    WithMessage,
    ServerMessage,
}

/// The mathematical value of a header of this dialect.
pub enum SygnalHeaderView {
    Username(Seq<char>),
    Password(Seq<char>),
    Key(Seq<char>),
    AuthStatus(AuthStatus),
    SygnalType(SygnalType),
    WithMessage,
    ServerMessage,
}

impl View for SygnalHeader {
    type V = SygnalHeaderView;

    open spec fn view(&self) -> SygnalHeaderView {
        match self {
            SygnalHeader::Username(v) => SygnalHeaderView::Username(v@),
            SygnalHeader::Password(v) => SygnalHeaderView::Password(v@),
            SygnalHeader::Key(v) => SygnalHeaderView::Key(v@),
            SygnalHeader::AuthStatus(a) => SygnalHeaderView::AuthStatus(*a),
            SygnalHeader::SygnalType(t) => SygnalHeaderView::SygnalType(*t),
            SygnalHeader::WithMessage => SygnalHeaderView::WithMessage,
            SygnalHeader::ServerMessage => SygnalHeaderView::ServerMessage,
        }
    }
}

/// The text of a header line without its terminator.
pub open spec fn header_content(h: SygnalHeaderView) -> Seq<char> {
    match h {
        SygnalHeaderView::Username(v) => "USERNAME: "@ + v,
        SygnalHeaderView::Password(v) => "PASSWORD: "@ + v,
        SygnalHeaderView::Key(v) => "KEY: "@ + v,
        SygnalHeaderView::AuthStatus(a) => "AUTH_STATUS: "@ + a.text(),
        SygnalHeaderView::SygnalType(t) => "SYGNAL_TYPE: "@ + t.text(),
        SygnalHeaderView::WithMessage => "WITH_MESSAGE"@,
        SygnalHeaderView::ServerMessage => "SERVER_MESSAGE"@,
    }
}

/// The encoding of a header: its line and the line terminator.
pub open spec fn header_text(h: SygnalHeaderView) -> Seq<char> {
    header_content(h) + crlf()
}

/// The header that a line holds, if it is a recognised one.
pub open spec fn parse_header(line: Seq<char>) -> Option<SygnalHeaderView> {
    let name = line_name(line);
    let value = trimmed(line_value(line));
    if name == "USERNAME"@ {
        Some(SygnalHeaderView::Username(value))
    } else if name == "PASSWORD"@ {
        Some(SygnalHeaderView::Password(value))
    } else if name == "KEY"@ {
        Some(SygnalHeaderView::Key(value))
    } else if name == "AUTH_STATUS"@ {
        match AuthStatus::parse(value) {
            Some(a) => Some(SygnalHeaderView::AuthStatus(a)),
            None => None,
        }
    } else if name == "SYGNAL_TYPE"@ {
        match SygnalType::parse(value) {
            Some(t) => Some(SygnalHeaderView::SygnalType(t)),
            None => None,
        }
    } else if name == "WITH_MESSAGE"@ {
        Some(SygnalHeaderView::WithMessage)
    } else if name == "SERVER_MESSAGE"@ {
        Some(SygnalHeaderView::ServerMessage)
    } else {
        None
    }
}

/// The trimmed value `cs[from..to]` as a string, where `cs` are the characters of `s`.
fn trimmed_value(s: &str, cs: &Vec<char>, from: usize, to: usize) -> (r: String)
    requires
        s@ == cs@,
        from <= to <= cs.len(),
    ensures
        r@ == trimmed(cs@.subrange(from as int, to as int)),
{
    let (a, b) = trim_bounds(cs, from, to);
    s.substring_char(a, b).to_owned()
}

/// The header held by the line `cs[from..to]`, where `cs` are the characters of `s`.
fn parse_line(s: &str, cs: &Vec<char>, from: usize, to: usize) -> (r: Option<SygnalHeader>)
    requires
        s@ == cs@,
        from <= to <= cs.len(),
    ensures
        match r {
            Some(h) => parse_header(cs@.subrange(from as int, to as int)) == Some(h@),
            None => parse_header(cs@.subrange(from as int, to as int)) is None,
        },
{
    let ghost line = cs@.subrange(from as int, to as int);
    let k = colon_in(cs, from, to);
    let (name_end, value_start) = if k < to {
        (k, k + 1)
    } else {
        (to, from)
    };
    assert(line_name(line) == cs@.subrange(from as int, name_end as int));
    assert(line_value(line) =~= cs@.subrange(value_start as int, to as int));
    if seg_eq(cs, from, name_end, "USERNAME") {
        Some(SygnalHeader::Username(trimmed_value(s, cs, value_start, to)))
    } else if seg_eq(cs, from, name_end, "PASSWORD") {
        Some(SygnalHeader::Password(trimmed_value(s, cs, value_start, to)))
    } else if seg_eq(cs, from, name_end, "KEY") {
        Some(SygnalHeader::Key(trimmed_value(s, cs, value_start, to)))
    } else if seg_eq(cs, from, name_end, "AUTH_STATUS") {
        let (a, b) = trim_bounds(cs, value_start, to);
        match AuthStatus::parse_chars(cs, a, b) {
            Ok(st) => Some(SygnalHeader::AuthStatus(st)),
            Err(_) => None,
        }
    } else if seg_eq(cs, from, name_end, "SYGNAL_TYPE") {
        let (a, b) = trim_bounds(cs, value_start, to);
        match SygnalType::parse_chars(cs, a, b) {
            Ok(t) => Some(SygnalHeader::SygnalType(t)),
            Err(_) => None,
        }
    } else if seg_eq(cs, from, name_end, "WITH_MESSAGE") {
        Some(SygnalHeader::WithMessage)
    } else if seg_eq(cs, from, name_end, "SERVER_MESSAGE") {
        Some(SygnalHeader::ServerMessage)
    } else {
        None
    }
}

impl SygnalHeader {
    /// Reads one header line (without its terminator).
    pub fn from_str(s: &str) -> (r: Result<SygnalHeader, ParseSygnalDataError>)
        ensures
            match r {
                Ok(h) => parse_header(s@) == Some(h@),
                Err(_) => parse_header(s@) is None,
            },
    {
        let cs = chars_of(s);
        assert(cs@.subrange(0, cs@.len() as int) =~= s@);
        match parse_line(s, &cs, 0, cs.len()) {
            Some(h) => Ok(h),
            None => Err(ParseSygnalDataError),
        }
    }

    /// The header's line, terminator included.
    pub fn to_string(&self) -> (r: String)
        ensures
            r@ == header_text(self@),
    {
        let mut r = String::new();
        match self {
            SygnalHeader::Username(v) => {
                r.append("USERNAME: ");
                r.append(v.as_str());
            },
            SygnalHeader::Password(v) => {
                r.append("PASSWORD: ");
                r.append(v.as_str());
            },
            SygnalHeader::Key(v) => {
                r.append("KEY: ");
                r.append(v.as_str());
            },
            SygnalHeader::AuthStatus(a) => {
                r.append("AUTH_STATUS: ");
                r.append(a.to_string().as_str());
            },
            SygnalHeader::SygnalType(t) => {
                r.append("SYGNAL_TYPE: ");
                r.append(t.to_string().as_str());
            },
            SygnalHeader::WithMessage => {
                r.append("WITH_MESSAGE");
            },
            SygnalHeader::ServerMessage => {
                r.append("SERVER_MESSAGE");
            },
        }
        r.append("\r\n");
        proof {
            reveal_strlit("\r\n");
        }
        assert(r@ =~= header_text(self@));
        r
    }
}

/// A decoded or built signal of this dialect.
pub struct SygnalData {
    pub username: Option<String>,
    pub password: Option<String>,
    pub key: Option<String>,
    pub auth_status: Option<AuthStatus>,
    pub sygnal_type: Option<SygnalType>,
    pub with_message: bool,
    pub message: Option<String>,
    pub server_message: bool,
}

/// The mathematical value of a signal of this dialect.
pub struct SygnalView {
    pub username: Option<Seq<char>>,
    pub password: Option<Seq<char>>,
    pub key: Option<Seq<char>>,
    pub auth_status: Option<AuthStatus>,
    pub sygnal_type: Option<SygnalType>,
    pub with_message: bool,
    pub message: Option<Seq<char>>,
    pub server_message: bool,
}

impl View for SygnalData {
    type V = SygnalView;

    open spec fn view(&self) -> SygnalView {
        SygnalView {
            username: opt_view(self.username),
            password: opt_view(self.password),
            key: opt_view(self.key),
            auth_status: self.auth_status,
            sygnal_type: self.sygnal_type,
            with_message: self.with_message,
            message: opt_view(self.message),
            server_message: self.server_message,
        }
    }
}

impl SygnalView {
    /// The signal with no header set.
    pub open spec fn empty() -> SygnalView {
        SygnalView {
            username: None,
            password: None,
            key: None,
            auth_status: None,
            sygnal_type: None,
            with_message: false,
            message: None,
            server_message: false,
        }
    }
}

/// What decoding does with one header: it sets the matching field.
pub open spec fn read_header(d: SygnalView, h: SygnalHeaderView) -> SygnalView {
    match h {
        SygnalHeaderView::Username(v) => SygnalView { username: Some(v), ..d },
        SygnalHeaderView::Password(v) => SygnalView { password: Some(v), ..d },
        SygnalHeaderView::Key(v) => SygnalView { key: Some(v), ..d },
        SygnalHeaderView::AuthStatus(a) => SygnalView { auth_status: Some(a), ..d },
        SygnalHeaderView::SygnalType(t) => SygnalView { sygnal_type: Some(t), ..d },
        SygnalHeaderView::WithMessage => SygnalView { with_message: true, ..d },
        SygnalHeaderView::ServerMessage => SygnalView { server_message: true, ..d },
    }
}

/// What decoding does with one line: a recognised header sets its field, any other line is
/// skipped.
pub open spec fn read_line(d: SygnalView, line: Seq<char>) -> SygnalView {
    match parse_header(line) {
        Some(h) => read_header(d, h),
        None => d,
    }
}

/// Reads the lines of `s` from the line that starts at `start`, whose characters up to `i`
/// hold no line terminator, into `d`.
pub open spec fn scan(d: SygnalView, s: Seq<char>, start: int, i: int) -> SygnalView
    decreases s.len() - i,
{
    if i + 1 < s.len() {
        if s[i] == '\r' && s[i + 1] == '\n' {
            scan(read_line(d, s.subrange(start, i)), s, i + 2, i + 2)
        } else {
            scan(d, s, start, i + 1)
        }
    } else {
        read_line(d, s.subrange(start, s.len() as int))
    }
}

/// The signal that the frame `s` holds, or `None` for a frame that does not decode; the
/// rules are those of [`crate::types::decode`].
pub open spec fn decode(s: Seq<char>) -> Option<SygnalView> {
    let d = scan(SygnalView::empty(), s, 0, 0);
    if d.sygnal_type is None {
        None
    } else if d.with_message {
        let k = find_term(s, 0);
        if k + 4 > s.len() {
            None
        } else {
            Some(SygnalView { message: Some(strip_term(s.subrange(k + 4, s.len() as int))), ..d })
        }
    } else {
        Some(d)
    }
}

/// The line of an optional header.
pub open spec fn opt_line(h: Option<SygnalHeaderView>) -> Seq<char> {
    match h {
        Some(x) => header_text(x),
        None => Seq::empty(),
    }
}

/// The username, password and key lines of a signal, those it has.
pub open spec fn credentials_part(d: SygnalView) -> Seq<char> {
    opt_line(
        match d.username {
            Some(v) => Some(SygnalHeaderView::Username(v)),
            None => None,
        },
    ) + opt_line(
        match d.password {
            Some(v) => Some(SygnalHeaderView::Password(v)),
            None => None,
        },
    ) + opt_line(
        match d.key {
            Some(v) => Some(SygnalHeaderView::Key(v)),
            None => None,
        },
    )
}

/// The auth-status, signal-type and server-message lines of a signal, those it has.
pub open spec fn status_part(d: SygnalView) -> Seq<char> {
    opt_line(
        match d.auth_status {
            Some(a) => Some(SygnalHeaderView::AuthStatus(a)),
            None => None,
        },
    ) + opt_line(
        match d.sygnal_type {
            Some(t) => Some(SygnalHeaderView::SygnalType(t)),
            None => None,
        },
    ) + opt_line(
        if d.server_message {
            Some(SygnalHeaderView::ServerMessage)
        } else {
            None
        },
    )
}

/// The with-message marker line, the empty line and the body, when the signal carries one.
pub open spec fn body_part(d: SygnalView) -> Seq<char> {
    if d.with_message && d.message is Some {
        header_text(SygnalHeaderView::WithMessage) + crlf() + d.message->0
    } else {
        Seq::empty()
    }
}

/// The frame of a signal: its header lines in wire order, its body, the frame terminator.
pub open spec fn encode(d: SygnalView) -> Seq<char> {
    credentials_part(d) + status_part(d) + body_part(d) + terminator()
}

/// What building does with one header: the with-message marker also sets the body.
pub open spec fn build_header(d: SygnalView, h: SygnalHeaderView, body: Seq<char>) -> SygnalView {
    match h {
        SygnalHeaderView::WithMessage => SygnalView {
            with_message: true,
            message: Some(body),
            ..d
        },
        _ => read_header(d, h),
    }
}

/// The signal built from `hs`, in order, with `body` for the with-message marker.
pub open spec fn build(hs: Seq<SygnalHeaderView>, body: Seq<char>) -> SygnalView
    decreases hs.len(),
{
    if hs.len() == 0 {
        SygnalView::empty()
    } else {
        build_header(build(hs.drop_last(), body), hs.last(), body)
    }
}

/// The views of a sequence of headers.
pub open spec fn header_views(hs: Seq<SygnalHeader>) -> Seq<SygnalHeaderView> {
    hs.map_values(|h: SygnalHeader| h@)
}

/// The line of an optional header, as a string.
fn opt_text(h: Option<SygnalHeader>) -> (r: String)
    ensures
        r@ == opt_line(
            match h {
                Some(x) => Some(x@),
                None => None,
            },
        ),
{
    match h {
        Some(x) => x.to_string(),
        None => String::new(),
    }
}

/// A copy of an optional string.
fn copy_opt(o: &Option<String>) -> (r: Option<String>)
    ensures
        r == *o,
{
    match o {
        Some(v) => Some(v.clone()),
        None => None,
    }
}

impl SygnalData {
    fn empty() -> (r: SygnalData)
        ensures
            r@ == SygnalView::empty(),
    {
        SygnalData {
            username: None,
            password: None,
            key: None,
            auth_status: None,
            sygnal_type: None,
            with_message: false,
            message: None,
            server_message: false,
        }
    }

    fn take_header(&mut self, h: SygnalHeader)
        ensures
            final(self)@ == read_header(old(self)@, h@),
    {
        match h {
            SygnalHeader::Username(v) => {
                self.username = Some(v);
            },
            SygnalHeader::Password(v) => {
                self.password = Some(v);
            },
            SygnalHeader::Key(v) => {
                self.key = Some(v);
            },
            SygnalHeader::AuthStatus(a) => {
                self.auth_status = Some(a);
            },
            SygnalHeader::SygnalType(t) => {
                self.sygnal_type = Some(t);
            },
            SygnalHeader::WithMessage => {
                self.with_message = true;
            },
            SygnalHeader::ServerMessage => {
                self.server_message = true;
            },
        }
    }

    /// Builds a signal from headers, in order; the with-message marker takes `message`,
    /// or an empty body when there is none.
    pub fn new(headers: Vec<SygnalHeader>, message: Option<&str>) -> (r: SygnalData)
        ensures
            r@ == build(
                header_views(headers@),
                match message {
                    Some(m) => m@,
                    None => Seq::empty(),
                },
            ),
    {
        let ghost body_view = match message {
            Some(m) => m@,
            None => Seq::<char>::empty(),
        };
        let body: String = match message {
            Some(m) => m.to_owned(),
            None => String::new(),
        };
        let mut data = SygnalData::empty();
        let n = headers.len();
        let mut i: usize = 0;
        while i < n
            invariant
                n == headers@.len(),
                i <= n,
                body@ == body_view,
                data@ == build(header_views(headers@.take(i as int)), body_view),
            decreases n - i,
        {
            assert(header_views(headers@.take(i + 1)).drop_last() =~= header_views(
                headers@.take(i as int),
            ));
            match &headers[i] {
                SygnalHeader::Username(v) => {
                    data.username = Some(v.clone());
                },
                SygnalHeader::Password(v) => {
                    data.password = Some(v.clone());
                },
                SygnalHeader::Key(v) => {
                    data.key = Some(v.clone());
                },
                SygnalHeader::AuthStatus(a) => {
                    data.auth_status = Some(*a);
                },
                SygnalHeader::SygnalType(t) => {
                    data.sygnal_type = Some(*t);
                },
                SygnalHeader::WithMessage => {
                    data.with_message = true;
                    data.message = Some(body.clone());
                },
                SygnalHeader::ServerMessage => {
                    data.server_message = true;
                },
            }
            i = i + 1;
        }
        assert(headers@.take(n as int) =~= headers@);
        data
    }

    /// Decodes one frame.
    pub fn from_str(s: &str) -> (r: Result<SygnalData, ParseSygnalDataError>)
        ensures
            match r {
                Ok(d) => decode(s@) == Some(d@),
                Err(_) => decode(s@) is None,
            },
    {
        let cs = chars_of(s);
        let n = cs.len();
        let mut data = SygnalData::empty();
        let mut start: usize = 0;
        let mut i: usize = 0;
        while n - i >= 2
            invariant
                start <= i <= n == cs@.len(),
                s@ == cs@,
                scan(SygnalView::empty(), cs@, 0, 0) == scan(data@, cs@, start as int, i as int),
            decreases n - i,
        {
            if cs[i] == '\r' && cs[i + 1] == '\n' {
                if let Some(h) = parse_line(s, &cs, start, i) {
                    data.take_header(h);
                }
                i = i + 2;
                start = i;
            } else {
                i = i + 1;
            }
        }
        if let Some(h) = parse_line(s, &cs, start, n) {
            data.take_header(h);
        }
        assert(data@ == scan(SygnalView::empty(), s@, 0, 0));
        if data.sygnal_type.is_none() {
            return Err(ParseSygnalDataError);
        }
        if data.with_message {
            let k = term_in(&cs);
            if k >= n || n - k < 4 {
                return Err(ParseSygnalDataError);
            }
            let from = k + 4;
            let to = if n - from >= 4 && cs[n - 4] == '\r' && cs[n - 3] == '\n' && cs[n - 2] == '\r'
                && cs[n - 1] == '\n' {
                n - 4
            } else {
                n
            };
            assert(strip_term(cs@.subrange(from as int, n as int)) =~= cs@.subrange(
                from as int,
                to as int,
            ));
            data.message = Some(s.substring_char(from, to).to_owned());
        }
        Ok(data)
    }

    fn credentials_text(&self) -> (r: String)
        ensures
            r@ == credentials_part(self@),
    {
        let mut res = opt_text(
            match copy_opt(&self.username) {
                Some(v) => Some(SygnalHeader::Username(v)),
                None => None,
            },
        );
        res.append(
            opt_text(
                match copy_opt(&self.password) {
                    Some(v) => Some(SygnalHeader::Password(v)),
                    None => None,
                },
            ).as_str(),
        );
        res.append(
            opt_text(
                match copy_opt(&self.key) {
                    Some(v) => Some(SygnalHeader::Key(v)),
                    None => None,
                },
            ).as_str(),
        );
        assert(res@ =~= credentials_part(self@));
        res
    }

    fn status_text(&self) -> (r: String)
        ensures
            r@ == status_part(self@),
    {
        let mut res = opt_text(
            match self.auth_status {
                Some(a) => Some(SygnalHeader::AuthStatus(a)),
                None => None,
            },
        );
        res.append(
            opt_text(
                match self.sygnal_type {
                    Some(t) => Some(SygnalHeader::SygnalType(t)),
                    None => None,
                },
            ).as_str(),
        );
        res.append(
            opt_text(
                if self.server_message {
                    Some(SygnalHeader::ServerMessage)
                } else {
                    None
                },
            ).as_str(),
        );
        assert(res@ =~= status_part(self@));
        res
    }

    fn body_text(&self) -> (r: String)
        ensures
            r@ == body_part(self@),
    {
        let mut res = String::new();
        if self.with_message {
            if let Some(v) = &self.message {
                res.append(SygnalHeader::WithMessage.to_string().as_str());
                res.append("\r\n");
                res.append(v.as_str());
                proof {
                    reveal_strlit("\r\n");
                }
            }
        }
        assert(res@ =~= body_part(self@));
        res
    }

    /// Encodes the signal as one frame.
    pub fn to_string(&self) -> (r: String)
        ensures
            r@ == encode(self@),
    {
        let mut res = self.credentials_text();
        res.append(self.status_text().as_str());
        res.append(self.body_text().as_str());
        res.append("\r\n\r\n");
        proof {
            reveal_strlit("\r\n\r\n");
        }
        assert(res@ =~= encode(self@));
        res
    }
}

} // verus!
