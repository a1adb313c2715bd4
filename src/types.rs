//! The framed text protocol: signal headers, signals, and their encoding and decoding.
//!
//! A frame is a run of header lines, each ended by CRLF, then an empty line, then
//! (when the with-message marker is present) the raw body, and finally CRLF CRLF.

use vstd::prelude::*;
use crate::text::{chars_of, seg_eq, trim_bounds, trimmed};

verus! {

/// A frame that does not decode to a signal.
#[derive(Debug, Clone, Copy, PartialEq, Eq)]
pub struct ParseSignalDataError;

/// A handshake that cannot be accepted.
#[derive(Debug, Clone, Copy, PartialEq, Eq)]
pub struct AuthConnectionError;

/// An ingested frame that cannot become a history entry.
#[derive(Debug, Clone, Copy, PartialEq, Eq)]
pub struct IncomingMessageError;

/// The two-character line terminator.
pub open spec fn crlf() -> Seq<char> {
    seq!['\r', '\n']
}

/// The four-character frame terminator.
pub open spec fn terminator() -> Seq<char> {
    seq!['\r', '\n', '\r', '\n']
}

/// What a signal is for: joining the chat, or carrying a chat message.
#[derive(Debug, Clone, Copy, PartialEq, Eq)]
pub enum SignalType {
    Connection,
    NewMessage,
}

impl SignalType {
    /// The wire word of this signal type.
    pub open spec fn text(self) -> Seq<char> {
        match self {
            SignalType::Connection => "CONNECTION"@,
            SignalType::NewMessage => "NEW_MESSAGE"@,
        }
    }

    /// The signal type whose wire word is `s`, if any.
    pub open spec fn parse(s: Seq<char>) -> Option<SignalType> {
        if s == "CONNECTION"@ {
            Some(SignalType::Connection)
        } else if s == "NEW_MESSAGE"@ {
            Some(SignalType::NewMessage)
        } else {
            None
        }
    }

    pub fn from_str(s: &str) -> (r: Result<SignalType, ParseSignalDataError>)
        ensures
            match r {
                Ok(t) => SignalType::parse(s@) == Some(t),
                Err(_) => SignalType::parse(s@) is None,
            },
    {
        let cs = chars_of(s);
        assert(cs@.subrange(0, cs@.len() as int) =~= s@);
        SignalType::parse_chars(&cs, 0, cs.len())
    }

    fn parse_chars(cs: &Vec<char>, from: usize, to: usize) -> (r: Result<SignalType, ParseSignalDataError>)
        requires
            from <= to <= cs.len(),
        ensures
            match r {
                Ok(t) => SignalType::parse(cs@.subrange(from as int, to as int)) == Some(t),
                Err(_) => SignalType::parse(cs@.subrange(from as int, to as int)) is None,
            },
    {
        if seg_eq(cs, from, to, "CONNECTION") {
            Ok(SignalType::Connection)
        } else if seg_eq(cs, from, to, "NEW_MESSAGE") {
            Ok(SignalType::NewMessage)
        } else {
            Err(ParseSignalDataError)
        }
    }

    pub fn to_string(&self) -> (r: String)
        ensures
            r@ == self.text(),
    {
        match self {
            SignalType::Connection => "CONNECTION".to_owned(),
            SignalType::NewMessage => "NEW_MESSAGE".to_owned(),
        }
    }
}

/// The broker's answer to a handshake.
#[allow(non_camel_case_types)]
#[derive(Debug, Clone, Copy, PartialEq, Eq)]
pub enum AuthStatus {
    ACCEPTED,
    DENIED,
}

impl AuthStatus {
    /// The wire word of this status.
    pub open spec fn text(self) -> Seq<char> {
        match self {
            AuthStatus::ACCEPTED => "ACCEPTED"@,
            AuthStatus::DENIED => "DENIED"@,
        }
    }

    /// The status whose wire word is `s`, if any.
    pub open spec fn parse(s: Seq<char>) -> Option<AuthStatus> {
        if s == "ACCEPTED"@ {
            Some(AuthStatus::ACCEPTED)
        } else if s == "DENIED"@ {
            Some(AuthStatus::DENIED)
        } else {
            None
        }
    }

    pub fn from_str(s: &str) -> (r: Result<AuthStatus, ParseSignalDataError>)
        ensures
            match r {
                Ok(a) => AuthStatus::parse(s@) == Some(a),
                Err(_) => AuthStatus::parse(s@) is None,
            },
    {
        let cs = chars_of(s);
        assert(cs@.subrange(0, cs@.len() as int) =~= s@);
        AuthStatus::parse_chars(&cs, 0, cs.len())
    }

    pub(crate) fn parse_chars(cs: &Vec<char>, from: usize, to: usize) -> (r: Result<
        AuthStatus,
        ParseSignalDataError,
    >)
        requires
            from <= to <= cs.len(),
        ensures
            match r {
                Ok(a) => AuthStatus::parse(cs@.subrange(from as int, to as int)) == Some(a),
                Err(_) => AuthStatus::parse(cs@.subrange(from as int, to as int)) is None,
            },
    {
        if seg_eq(cs, from, to, "ACCEPTED") {
            Ok(AuthStatus::ACCEPTED)
        } else if seg_eq(cs, from, to, "DENIED") {
            Ok(AuthStatus::DENIED)
        } else {
            Err(ParseSignalDataError)
        }
    }

    pub fn to_string(&self) -> (r: String)
        ensures
            r@ == self.text(),
    {
        match self {
            AuthStatus::ACCEPTED => "ACCEPTED".to_owned(),
            AuthStatus::DENIED => "DENIED".to_owned(),
        }
    }
}

/// One header line of a frame.
pub enum SignalHeader {
    Username(String),
    AuthStatus(AuthStatus),
    SignalType(SignalType),
    WithMessage,
    ServerMessage,
}

/// The mathematical value of a header.
pub enum HeaderView {
    Username(Seq<char>),
    AuthStatus(AuthStatus),
    SignalType(SignalType),
    WithMessage,
    ServerMessage,
}

impl View for SignalHeader {
    type V = HeaderView;

    open spec fn view(&self) -> HeaderView {
        match self {
            SignalHeader::Username(v) => HeaderView::Username(v@),
            SignalHeader::AuthStatus(a) => HeaderView::AuthStatus(*a),
            SignalHeader::SignalType(t) => HeaderView::SignalType(*t),
            SignalHeader::WithMessage => HeaderView::WithMessage,
            SignalHeader::ServerMessage => HeaderView::ServerMessage,
        }
    }
}

/// The text of a header line without its terminator.
pub open spec fn header_content(h: HeaderView) -> Seq<char> {
    match h {
        HeaderView::Username(v) => "USERNAME: "@ + v,
        HeaderView::AuthStatus(a) => "AUTH_STATUS: "@ + a.text(),
        HeaderView::SignalType(t) => "SIGNAL_TYPE: "@ + t.text(),
        HeaderView::WithMessage => "WITH_MESSAGE"@,
        HeaderView::ServerMessage => "SERVER_MESSAGE"@,
    }
}

/// The encoding of a header: its line and the line terminator.
pub open spec fn header_text(h: HeaderView) -> Seq<char> {
    header_content(h) + crlf()
}

/// Index of the first `':'` in `s` at or after `i`, or `s.len()` when there is none.
pub open spec fn find_colon(s: Seq<char>, i: int) -> int
    decreases s.len() - i,
{
    if i >= s.len() {
        s.len() as int
    } else if s[i] == ':' {
        i
    } else {
        find_colon(s, i + 1)
    }
}

/// The name part of a header line: what stands before its first colon, or the whole line.
pub open spec fn line_name(line: Seq<char>) -> Seq<char> {
    let k = find_colon(line, 0);
    if k < line.len() { line.subrange(0, k) } else { line }
}

/// The value part of a header line: what follows its first colon, or the whole line.
pub open spec fn line_value(line: Seq<char>) -> Seq<char> {
    let k = find_colon(line, 0);
    if k < line.len() { line.subrange(k + 1, line.len() as int) } else { line }
}

/// The header that a line holds, if it is a recognised one.
pub open spec fn parse_header(line: Seq<char>) -> Option<HeaderView> {
    let name = line_name(line);
    let value = trimmed(line_value(line));
    if name == "USERNAME"@ {
        Some(HeaderView::Username(value))
    } else if name == "AUTH_STATUS"@ {
        match AuthStatus::parse(value) {
            Some(a) => Some(HeaderView::AuthStatus(a)),
            None => None,
        }
    } else if name == "SIGNAL_TYPE"@ {
        match SignalType::parse(value) {
            Some(t) => Some(HeaderView::SignalType(t)),
            None => None,
        }
    } else if name == "WITH_MESSAGE"@ {
        Some(HeaderView::WithMessage)
    } else if name == "SERVER_MESSAGE"@ {
        Some(HeaderView::ServerMessage)
    } else {
        None
    }
}

/// Index of the first colon of `cs[from..to]`, or `to` when there is none.
pub(crate) fn colon_in(cs: &Vec<char>, from: usize, to: usize) -> (k: usize)
    requires
        from <= to <= cs.len(),
    ensures
        from <= k <= to,
        k - from == find_colon(cs@.subrange(from as int, to as int), 0),
{
    let ghost line = cs@.subrange(from as int, to as int);
    let mut k: usize = from;
    while k < to && cs[k] != ':'
        invariant
            from <= k <= to <= cs.len(),
            line == cs@.subrange(from as int, to as int),
            find_colon(line, 0) == find_colon(line, k - from),
        decreases to - k,
    {
        assert(line[k - from] == cs@[k as int]);
        k = k + 1;
    }
    if k < to {
        assert(line[k - from] == cs@[k as int]);
    }
    k
}

/// The header held by the line `cs[from..to]`, where `cs` are the characters of `s`.
fn parse_line(s: &str, cs: &Vec<char>, from: usize, to: usize) -> (r: Option<SignalHeader>)
    requires
        s@ == cs@,
        from <= to <= cs.len(),
    ensures
        match r {
            Some(h) => parse_header(cs@.subrange(from as int, to as int)) == Some(h@),
            None => parse_header(cs@.subrange(from as int, to as int)) is None,
        },
{
    let ghost line = cs@.subrange(from as int, to as int);
    let k = colon_in(cs, from, to);
    let (name_end, value_start) = if k < to {
        (k, k + 1)
    } else {
        (to, from)
    };
    assert(line_name(line) == cs@.subrange(from as int, name_end as int));
    assert(line_value(line) =~= cs@.subrange(value_start as int, to as int));
    if seg_eq(cs, from, name_end, "USERNAME") {
        let (a, b) = trim_bounds(cs, value_start, to);
        let v = s.substring_char(a, b).to_owned();
        Some(SignalHeader::Username(v))
    } else if seg_eq(cs, from, name_end, "AUTH_STATUS") {
        let (a, b) = trim_bounds(cs, value_start, to);
        match AuthStatus::parse_chars(cs, a, b) {
            Ok(st) => Some(SignalHeader::AuthStatus(st)),
            Err(_) => None,
        }
    } else if seg_eq(cs, from, name_end, "SIGNAL_TYPE") {
        let (a, b) = trim_bounds(cs, value_start, to);
        match SignalType::parse_chars(cs, a, b) {
            Ok(t) => Some(SignalHeader::SignalType(t)),
            Err(_) => None,
        }
    } else if seg_eq(cs, from, name_end, "WITH_MESSAGE") {
        Some(SignalHeader::WithMessage)
    } else if seg_eq(cs, from, name_end, "SERVER_MESSAGE") {
        Some(SignalHeader::ServerMessage)
    } else {
        None
    }
}

impl SignalHeader {
    /// Reads one header line (without its terminator).
    pub fn from_str(s: &str) -> (r: Result<SignalHeader, ParseSignalDataError>)
        ensures
            match r {
                Ok(h) => parse_header(s@) == Some(h@),
                Err(_) => parse_header(s@) is None,
            },
    {
        let cs = chars_of(s);
        assert(cs@.subrange(0, cs@.len() as int) =~= s@);
        match parse_line(s, &cs, 0, cs.len()) {
            Some(h) => Ok(h),
            None => Err(ParseSignalDataError),
        }
    }

    /// The header's line, terminator included.
    pub fn to_string(&self) -> (r: String)
        ensures
            r@ == header_text(self@),
    {
        let mut r = String::new();
        match self {
            SignalHeader::Username(v) => {
                r.append("USERNAME: ");
                r.append(v.as_str());
            },
            SignalHeader::AuthStatus(a) => {
                r.append("AUTH_STATUS: ");
                r.append(a.to_string().as_str());
            },
            SignalHeader::SignalType(t) => {
                r.append("SIGNAL_TYPE: ");
                r.append(t.to_string().as_str());
            },
            SignalHeader::WithMessage => {
                r.append("WITH_MESSAGE");
            },
            SignalHeader::ServerMessage => {
                r.append("SERVER_MESSAGE");
            },
        }
        r.append("\r\n");
        proof {
            reveal_strlit("\r\n");
        }
        assert(r@ =~= header_text(self@));
        r
    }
}

/// A decoded or built signal.
pub struct SignalData {
    pub username: Option<String>,
    pub auth_status: Option<AuthStatus>,
    pub signal_type: Option<SignalType>,
    pub with_message: bool,
    pub message: Option<String>,
    pub server_message: bool,
}

/// The mathematical value of a signal.
pub struct SignalView {
    pub username: Option<Seq<char>>,
    pub auth_status: Option<AuthStatus>,
    pub signal_type: Option<SignalType>,
    pub with_message: bool,
    pub message: Option<Seq<char>>,
    pub server_message: bool,
}

/// The view of an optional string.
pub open spec fn opt_view(o: Option<String>) -> Option<Seq<char>> {
    match o {
        Some(v) => Some(v@),
        None => None,
    }
}

impl View for SignalData {
    type V = SignalView;

    open spec fn view(&self) -> SignalView {
        SignalView {
            username: opt_view(self.username),
            auth_status: self.auth_status,
            signal_type: self.signal_type,
            with_message: self.with_message,
            message: opt_view(self.message),
            server_message: self.server_message,
        }
    }
}

impl SignalView {
    /// The signal with no header set.
    pub open spec fn empty() -> SignalView {
        SignalView {
            username: None,
            auth_status: None,
            signal_type: None,
            with_message: false,
            message: None,
            server_message: false,
        }
    }

    /// A body is present exactly when the with-message marker is set.
    pub open spec fn wf(self) -> bool {
        self.with_message <==> self.message is Some
    }
}

/// What decoding does with one header: it sets the matching field.
pub open spec fn read_header(d: SignalView, h: HeaderView) -> SignalView {
    match h {
        HeaderView::Username(v) => SignalView { username: Some(v), ..d },
        HeaderView::AuthStatus(a) => SignalView { auth_status: Some(a), ..d },
        HeaderView::SignalType(t) => SignalView { signal_type: Some(t), ..d },
        HeaderView::WithMessage => SignalView { with_message: true, ..d },
        HeaderView::ServerMessage => SignalView { server_message: true, ..d },
    }
}

/// What decoding does with one line: a recognised header sets its field, any other line is skipped.
pub open spec fn read_line(d: SignalView, line: Seq<char>) -> SignalView {
    match parse_header(line) {
        Some(h) => read_header(d, h),
        None => d,
    }
}

/// Reads the lines of `s` from the line that starts at `start`, whose characters up to `i`
/// hold no line terminator, into `d`.
pub open spec fn scan(d: SignalView, s: Seq<char>, start: int, i: int) -> SignalView
    decreases s.len() - i,
{
    if i + 1 < s.len() {
        if s[i] == '\r' && s[i + 1] == '\n' {
            scan(read_line(d, s.subrange(start, i)), s, i + 2, i + 2)
        } else {
            scan(d, s, start, i + 1)
        }
    } else {
        read_line(d, s.subrange(start, s.len() as int))
    }
}

/// Whether the frame terminator starts at index `i` of `s`.
pub open spec fn term_at(s: Seq<char>, i: int) -> bool {
    0 <= i && i + 4 <= s.len() && s[i] == '\r' && s[i + 1] == '\n' && s[i + 2] == '\r' && s[i
        + 3] == '\n'
}

/// Index of the first frame terminator of `s` at or after `i`, or `s.len()` when there is none.
pub open spec fn find_term(s: Seq<char>, i: int) -> int
    decreases s.len() - i,
{
    if i + 4 > s.len() {
        s.len() as int
    } else if term_at(s, i) {
        i
    } else {
        find_term(s, i + 1)
    }
}

/// `rest` without a frame terminator at its end, if it has one.
pub open spec fn strip_term(rest: Seq<char>) -> Seq<char> {
    if rest.len() >= 4 && term_at(rest, rest.len() - 4) {
        rest.subrange(0, rest.len() - 4)
    } else {
        rest
    }
}

/// The signal that the frame `s` holds, or `None` for a frame that does not decode.
///
/// Every line is read as a header; when the with-message marker was seen, the body is
/// what follows the first frame terminator, less a frame terminator at its end. A frame
/// without a signal type, or with the marker and no terminator, does not decode.
pub open spec fn decode(s: Seq<char>) -> Option<SignalView> {
    let d = scan(SignalView::empty(), s, 0, 0);
    if d.signal_type is None {
        None
    } else if d.with_message {
        let k = find_term(s, 0);
        if k + 4 > s.len() {
            None
        } else {
            Some(SignalView { message: Some(strip_term(s.subrange(k + 4, s.len() as int))), ..d })
        }
    } else {
        Some(d)
    }
}

/// The username line of a signal, if it has one.
pub open spec fn username_part(d: SignalView) -> Seq<char> {
    match d.username {
        Some(u) => header_text(HeaderView::Username(u)),
        None => Seq::empty(),
    }
}

/// The auth-status line of a signal, if it has one.
pub open spec fn auth_part(d: SignalView) -> Seq<char> {
    match d.auth_status {
        Some(a) => header_text(HeaderView::AuthStatus(a)),
        None => Seq::empty(),
    }
}

/// The signal-type line of a signal, if it has one.
pub open spec fn type_part(d: SignalView) -> Seq<char> {
    match d.signal_type {
        Some(t) => header_text(HeaderView::SignalType(t)),
        None => Seq::empty(),
    }
}

/// The server-message marker line, when the signal is a broker notice.
pub open spec fn server_part(d: SignalView) -> Seq<char> {
    if d.server_message {
        header_text(HeaderView::ServerMessage)
    } else {
        Seq::empty()
    }
}

/// The with-message marker line, the empty line and the body, when the signal carries one.
pub open spec fn body_part(d: SignalView) -> Seq<char> {
    if d.with_message && d.message is Some {
        header_text(HeaderView::WithMessage) + crlf() + d.message->0
    } else {
        Seq::empty()
    }
}

/// The header lines and body of a signal, in wire order, before the frame terminator.
pub open spec fn encode_body(d: SignalView) -> Seq<char> {
    username_part(d) + auth_part(d) + type_part(d) + server_part(d) + body_part(d)
}

/// The frame of a signal.
pub open spec fn encode(d: SignalView) -> Seq<char> {
    encode_body(d) + terminator()
}

/// What building does with one header: the with-message marker also sets the body.
pub open spec fn build_header(d: SignalView, h: HeaderView, body: Seq<char>) -> SignalView {
    match h {
        HeaderView::WithMessage => SignalView { with_message: true, message: Some(body), ..d },
        _ => read_header(d, h),
    }
}

/// The signal built from `hs`, in order, with `body` for the with-message marker.
pub open spec fn build(hs: Seq<HeaderView>, body: Seq<char>) -> SignalView
    decreases hs.len(),
{
    if hs.len() == 0 {
        SignalView::empty()
    } else {
        build_header(build(hs.drop_last(), body), hs.last(), body)
    }
}

/// The views of a sequence of headers.
pub open spec fn header_views(hs: Seq<SignalHeader>) -> Seq<HeaderView> {
    hs.map_values(|h: SignalHeader| h@)
}

/// Index of the first frame terminator in `cs`, or `cs.len()`.
pub(crate) fn term_in(cs: &Vec<char>) -> (k: usize)
    ensures
        k == find_term(cs@, 0),
{
    let n = cs.len();
    let mut j: usize = 0;
    while j < n && n - j >= 4 && !(cs[j] == '\r' && cs[j + 1] == '\n' && cs[j + 2] == '\r' && cs[j
        + 3] == '\n')
        invariant
            j <= n == cs@.len(),
            find_term(cs@, 0) == find_term(cs@, j as int),
        decreases n - j,
    {
        j = j + 1;
    }
    if j < n && n - j >= 4 {
        j
    } else {
        n
    }
}

impl SignalData {
    fn empty() -> (r: SignalData)
        ensures
            r@ == SignalView::empty(),
    {
        SignalData {
            username: None,
            auth_status: None,
            signal_type: None,
            with_message: false,
            message: None,
            server_message: false,
        }
    }

    fn take_header(&mut self, h: SignalHeader)
        ensures
            final(self)@ == read_header(old(self)@, h@),
    {
        match h {
            SignalHeader::Username(v) => {
                self.username = Some(v);
            },
            SignalHeader::AuthStatus(a) => {
                self.auth_status = Some(a);
            },
            SignalHeader::SignalType(t) => {
                self.signal_type = Some(t);
            },
            SignalHeader::WithMessage => {
                self.with_message = true;
            },
            SignalHeader::ServerMessage => {
                self.server_message = true;
            },
        }
    }

    /// Builds a signal from headers, in order; the with-message marker takes `message`,
    /// or an empty body when there is none.
    pub fn new(headers: Vec<SignalHeader>, message: Option<&str>) -> (r: SignalData)
        ensures
            r@ == build(
                header_views(headers@),
                match message {
                    Some(m) => m@,
                    None => Seq::empty(),
                },
            ),
    {
        let ghost body_view = match message {
            Some(m) => m@,
            None => Seq::<char>::empty(),
        };
        let body: String = match message {
            Some(m) => m.to_owned(),
            None => String::new(),
        };
        let mut data = SignalData::empty();
        let n = headers.len();
        let mut i: usize = 0;
        while i < n
            invariant
                n == headers@.len(),
                i <= n,
                body@ == body_view,
                data@ == build(header_views(headers@.take(i as int)), body_view),
            decreases n - i,
        {
            assert(header_views(headers@.take(i + 1)).drop_last() =~= header_views(
                headers@.take(i as int),
            ));
            match &headers[i] {
                SignalHeader::Username(v) => {
                    data.username = Some(v.clone());
                },
                SignalHeader::AuthStatus(a) => {
                    data.auth_status = Some(*a);
                },
                SignalHeader::SignalType(t) => {
                    data.signal_type = Some(*t);
                },
                SignalHeader::WithMessage => {
                    data.with_message = true;
                    data.message = Some(body.clone());
                },
                SignalHeader::ServerMessage => {
                    data.server_message = true;
                },
            }
            i = i + 1;
        }
        assert(headers@.take(n as int) =~= headers@);
        data
    }

    /// Decodes one frame.
    pub fn from_str(s: &str) -> (r: Result<SignalData, ParseSignalDataError>)
        ensures
            match r {
                Ok(d) => decode(s@) == Some(d@),
                Err(_) => decode(s@) is None,
            },
    {
        let cs = chars_of(s);
        let n = cs.len();
        let mut data = SignalData::empty();
        let mut start: usize = 0;
        let mut i: usize = 0;
        while n - i >= 2
            invariant
                start <= i <= n == cs@.len(),
                s@ == cs@,
                scan(SignalView::empty(), cs@, 0, 0) == scan(data@, cs@, start as int, i as int),
            decreases n - i,
        {
            if cs[i] == '\r' && cs[i + 1] == '\n' {
                if let Some(h) = parse_line(s, &cs, start, i) {
                    data.take_header(h);
                }
                i = i + 2;
                start = i;
            } else {
                i = i + 1;
            }
        }
        if let Some(h) = parse_line(s, &cs, start, n) {
            data.take_header(h);
        }
        assert(data@ == scan(SignalView::empty(), s@, 0, 0));
        if data.signal_type.is_none() {
            return Err(ParseSignalDataError);
        }
        if data.with_message {
            let k = term_in(&cs);
            if k >= n || n - k < 4 {
                return Err(ParseSignalDataError);
            }
            let from = k + 4;
            let to = if n - from >= 4 && cs[n - 4] == '\r' && cs[n - 3] == '\n' && cs[n - 2] == '\r'
                && cs[n - 1] == '\n' {
                n - 4
            } else {
                n
            };
            assert(strip_term(cs@.subrange(from as int, n as int)) =~= cs@.subrange(
                from as int,
                to as int,
            ));
            data.message = Some(s.substring_char(from, to).to_owned());
        }
        Ok(data)
    }

    fn username_text(&self) -> (r: String)
        ensures
            r@ == username_part(self@),
    {
        match &self.username {
            Some(v) => SignalHeader::Username(v.clone()).to_string(),
            None => String::new(),
        }
    }

    fn auth_text(&self) -> (r: String)
        ensures
            r@ == auth_part(self@),
    {
        match &self.auth_status {
            Some(a) => SignalHeader::AuthStatus(*a).to_string(),
            None => String::new(),
        }
    }

    fn type_text(&self) -> (r: String)
        ensures
            r@ == type_part(self@),
    {
        match &self.signal_type {
            Some(t) => SignalHeader::SignalType(*t).to_string(),
            None => String::new(),
        }
    }

    fn server_text(&self) -> (r: String)
        ensures
            r@ == server_part(self@),
    {
        if self.server_message {
            SignalHeader::ServerMessage.to_string()
        } else {
            String::new()
        }
    }

    fn body_text(&self) -> (r: String)
        ensures
            r@ == body_part(self@),
    {
        let mut res = String::new();
        if self.with_message {
            if let Some(v) = &self.message {
                res.append(SignalHeader::WithMessage.to_string().as_str());
                res.append("\r\n");
                res.append(v.as_str());
                proof {
                    reveal_strlit("\r\n");
                }
            }
        }
        assert(res@ =~= body_part(self@));
        res
    }

    /// Encodes the signal as one frame.
    pub fn to_string(&self) -> (r: String)
        ensures
            r@ == encode(self@),
    {
        let mut res = self.username_text();
        res.append(self.auth_text().as_str());
        res.append(self.type_text().as_str());
        res.append(self.server_text().as_str());
        res.append(self.body_text().as_str());
        res.append("\r\n\r\n");
        proof {
            reveal_strlit("\r\n\r\n");
        }
        assert(res@ =~= encode(self@));
        res
    }
}

} // verus!
