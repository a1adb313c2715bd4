//! Decoding an encoded signal gives the signal back.

use vstd::prelude::*;
use crate::text::{lead_ws, trail_ws, trimmed, white_space};
use crate::types::{
    auth_part, body_part, crlf, decode, encode, find_colon, find_term, header_content, header_text,
    line_name, line_value, parse_header, read_header, read_line, scan, server_part, strip_term,
    term_at, terminator, type_part, username_part, AuthStatus, HeaderView, SignalType,
    SignalView,
};

verus! {

/// Whether `s` holds no line terminator.
pub open spec fn no_crlf(s: Seq<char>) -> bool {
    forall|j: int| 0 <= j && j + 1 < s.len() ==> !(#[trigger] s[j] == '\r' && s[j + 1] == '\n')
}

/// Scanning runs over a line to its terminator, then reads the line.
proof fn lemma_scan_line(d: SignalView, s: Seq<char>, start: int, i: int, e: int)
    requires
        0 <= start <= i <= e,
        e + 1 < s.len(),
        s[e] == '\r' && s[e + 1] == '\n',
        forall|j: int| i <= j < e ==> !(#[trigger] s[j] == '\r' && s[j + 1] == '\n'),
    ensures
        scan(d, s, start, i) == scan(read_line(d, s.subrange(start, e)), s, e + 2, e + 2),
    decreases e - i,
{
    if i < e {
        lemma_scan_line(d, s, start, i + 1, e);
    }
}

/// Scanning from position `p` on is scanning what follows `p`.
proof fn lemma_scan_shift(d: SignalView, s: Seq<char>, p: int, a: int, b: int)
    requires
        0 <= p,
        0 <= a <= b,
        p + b <= s.len(),
    ensures
        scan(d, s, p + a, p + b) == scan(d, s.subrange(p, s.len() as int), a, b),
    decreases s.len() - (p + b),
{
    let t = s.subrange(p, s.len() as int);
    if p + b + 1 < s.len() {
        assert(t[b] == s[p + b] && t[b + 1] == s[p + b + 1]);
        if s[p + b] == '\r' && s[p + b + 1] == '\n' {
            assert(t.subrange(a, b) =~= s.subrange(p + a, p + b));
            lemma_scan_shift(read_line(d, s.subrange(p + a, p + b)), s, p, b + 2, b + 2);
        } else {
            lemma_scan_shift(d, s, p, a, b + 1);
        }
    } else {
        assert(t.subrange(a, t.len() as int) =~= s.subrange(p + a, s.len() as int));
    }
}

/// Scanning a text that starts with a line and its terminator reads that line, then the rest.
proof fn lemma_scan_first_line(d: SignalView, line: Seq<char>, rest: Seq<char>)
    requires
        no_crlf(line),
    ensures
        scan(d, line + crlf() + rest, 0, 0) == scan(read_line(d, line), rest, 0, 0),
{
    let s = line + crlf() + rest;
    let e = line.len() as int;
    assert forall|j: int| 0 <= j < e implies !(#[trigger] s[j] == '\r' && s[j + 1] == '\n') by {
        if j + 1 < e {
            assert(s[j] == line[j] && s[j + 1] == line[j + 1]);
        }
    }
    lemma_scan_line(d, s, 0, 0, e);
    assert(s.subrange(0, e) =~= line);
    lemma_scan_shift(read_line(d, line), s, e + 2, 0, 0);
    assert(s.subrange(e + 2, s.len() as int) =~= rest);
}

/// An empty line reads nothing.
proof fn lemma_empty_line(d: SignalView)
    ensures
        read_line(d, Seq::empty()) == d,
{
    reveal_strlit("USERNAME");
    reveal_strlit("AUTH_STATUS");
    reveal_strlit("SIGNAL_TYPE");
    reveal_strlit("WITH_MESSAGE");
    reveal_strlit("SERVER_MESSAGE");
    assert(line_name(Seq::<char>::empty()) =~= Seq::<char>::empty());
}

/// Whether `s` holds no carriage return.
pub open spec fn no_cr(s: Seq<char>) -> bool {
    forall|j: int| 0 <= j < s.len() ==> #[trigger] s[j] != '\r'
}

proof fn lemma_no_crlf_concat(x: Seq<char>, y: Seq<char>)
    requires
        no_cr(x),
        no_crlf(y),
    ensures
        no_crlf(x + y),
{
    let s = x + y;
    assert forall|j: int| 0 <= j && j + 1 < s.len() implies !(#[trigger] s[j] == '\r' && s[j + 1]
        == '\n') by {
        if j < x.len() {
            assert(s[j] == x[j]);
        } else {
            assert(s[j] == y[j - x.len()] && s[j + 1] == y[j + 1 - x.len()]);
        }
    }
}

proof fn lemma_no_cr_no_crlf(x: Seq<char>)
    requires
        no_cr(x),
    ensures
        no_crlf(x),
{
    assert forall|j: int| 0 <= j && j + 1 < x.len() implies !(#[trigger] x[j] == '\r' && x[j + 1]
        == '\n') by {
        assert(x[j] != '\r');
    }
}

proof fn lemma_find_colon_at(s: Seq<char>, i: int, k: int)
    requires
        0 <= i <= k <= s.len(),
        forall|j: int| i <= j < k ==> #[trigger] s[j] != ':',
        k < s.len() ==> s[k] == ':',
    ensures
        find_colon(s, i) == k,
    decreases k - i,
{
    if i < k {
        lemma_find_colon_at(s, i + 1, k);
    }
}

/// A space, then a text with no white space at either end, trims to that text.
proof fn lemma_trim_after_space(u: Seq<char>)
    requires
        u.len() > 0 ==> !white_space(u[0]) && !white_space(u.last()),
    ensures
        trimmed(seq![' '] + u) == u,
{
    let s = seq![' '] + u;
    assert(s.drop_first() =~= u);
    assert(white_space(' '));
    assert(lead_ws(u) == 0);
    assert(lead_ws(s) == 1);
    assert(s.subrange(1, s.len() as int) =~= u);
    assert(trail_ws(u) == 0);
    assert(u.subrange(0, u.len() as int) =~= u);
}

proof fn lemma_literals()
    ensures
        "USERNAME: "@ =~= seq!['U', 'S', 'E', 'R', 'N', 'A', 'M', 'E', ':', ' '],
        "USERNAME"@ =~= seq!['U', 'S', 'E', 'R', 'N', 'A', 'M', 'E'],
        "AUTH_STATUS: "@ =~= seq!['A', 'U', 'T', 'H', '_', 'S', 'T', 'A', 'T', 'U', 'S', ':', ' '],
        "AUTH_STATUS"@ =~= seq!['A', 'U', 'T', 'H', '_', 'S', 'T', 'A', 'T', 'U', 'S'],
        "SIGNAL_TYPE: "@ =~= seq!['S', 'I', 'G', 'N', 'A', 'L', '_', 'T', 'Y', 'P', 'E', ':', ' '],
        "SIGNAL_TYPE"@ =~= seq!['S', 'I', 'G', 'N', 'A', 'L', '_', 'T', 'Y', 'P', 'E'],
        "WITH_MESSAGE"@ =~= seq!['W', 'I', 'T', 'H', '_', 'M', 'E', 'S', 'S', 'A', 'G', 'E'],
        "SERVER_MESSAGE"@ =~= seq![
            'S',
            'E',
            'R',
            'V',
            'E',
            'R',
            '_',
            'M',
            'E',
            'S',
            'S',
            'A',
            'G',
            'E',
        ],
        "ACCEPTED"@ =~= seq!['A', 'C', 'C', 'E', 'P', 'T', 'E', 'D'],
        "DENIED"@ =~= seq!['D', 'E', 'N', 'I', 'E', 'D'],
        "CONNECTION"@ =~= seq!['C', 'O', 'N', 'N', 'E', 'C', 'T', 'I', 'O', 'N'],
        "NEW_MESSAGE"@ =~= seq!['N', 'E', 'W', '_', 'M', 'E', 'S', 'S', 'A', 'G', 'E'],
{
    reveal_strlit("USERNAME: ");
    reveal_strlit("USERNAME");
    reveal_strlit("AUTH_STATUS: ");
    reveal_strlit("AUTH_STATUS");
    reveal_strlit("SIGNAL_TYPE: ");
    reveal_strlit("SIGNAL_TYPE");
    reveal_strlit("WITH_MESSAGE");
    reveal_strlit("SERVER_MESSAGE");
    reveal_strlit("ACCEPTED");
    reveal_strlit("DENIED");
    reveal_strlit("CONNECTION");
    reveal_strlit("NEW_MESSAGE");
}

/// The line of a header reads back as that header, has no line terminator, and starts with a
/// letter. A username must not hold a line terminator or white space at either end.
proof fn lemma_header_line(h: HeaderView)
    requires
        h matches HeaderView::Username(u) ==> no_crlf(u) && (u.len() > 0 ==> !white_space(u[0])
            && !white_space(u.last())),
    ensures
        parse_header(header_content(h)) == Some(h),
        no_crlf(header_content(h)),
        header_content(h).len() > 0,
        header_content(h)[0] != '\r',
{
    lemma_literals();
    let c = header_content(h);
    match h {
        HeaderView::Username(u) => {
            let p = "USERNAME: "@;
            assert(no_cr(p));
            lemma_no_crlf_concat(p, u);
            lemma_find_colon_at(c, 0, 8);
            assert(line_name(c) =~= "USERNAME"@);
            assert(line_value(c) =~= seq![' '] + u);
            lemma_trim_after_space(u);
        },
        HeaderView::AuthStatus(a) => {
            let p = "AUTH_STATUS: "@;
            assert(no_cr(p));
            assert(no_cr(a.text()));
            lemma_no_cr_no_crlf(a.text());
            lemma_no_crlf_concat(p, a.text());
            lemma_find_colon_at(c, 0, 11);
            assert(line_name(c) =~= "AUTH_STATUS"@);
            assert(line_value(c) =~= seq![' '] + a.text());
            lemma_trim_after_space(a.text());
        },
        HeaderView::SignalType(t) => {
            let p = "SIGNAL_TYPE: "@;
            assert(no_cr(p));
            assert(no_cr(t.text()));
            lemma_no_cr_no_crlf(t.text());
            lemma_no_crlf_concat(p, t.text());
            lemma_find_colon_at(c, 0, 11);
            assert(line_name(c) =~= "SIGNAL_TYPE"@);
            assert(line_value(c) =~= seq![' '] + t.text());
            lemma_trim_after_space(t.text());
        },
        HeaderView::WithMessage => {
            assert(no_cr(c));
            lemma_no_cr_no_crlf(c);
            lemma_find_colon_at(c, 0, c.len() as int);
        },
        HeaderView::ServerMessage => {
            assert(no_cr(c));
            lemma_no_cr_no_crlf(c);
            lemma_find_colon_at(c, 0, c.len() as int);
        },
    }
}

proof fn lemma_find_term_skip(s: Seq<char>, i: int, k: int)
    requires
        0 <= i <= k <= s.len(),
        forall|j: int| i <= j < k ==> !#[trigger] term_at(s, j),
    ensures
        find_term(s, i) == find_term(s, k),
    decreases k - i,
{
    if i < k && i + 4 <= s.len() {
        lemma_find_term_skip(s, i + 1, k);
    }
}

proof fn lemma_find_term_shift(s: Seq<char>, p: int, j: int)
    requires
        0 <= p,
        0 <= j,
        p + j <= s.len(),
    ensures
        find_term(s, p + j) == p + find_term(s.subrange(p, s.len() as int), j),
    decreases s.len() - (p + j),
{
    let t = s.subrange(p, s.len() as int);
    if p + j + 4 <= s.len() {
        assert(term_at(s, p + j) == term_at(t, j));
        if !term_at(s, p + j) {
            lemma_find_term_shift(s, p, j + 1);
        }
    }
}

/// The first frame terminator of a text that starts with a line, its terminator and a
/// character other than a carriage return lies in what follows the line.
proof fn lemma_find_term_after_line(line: Seq<char>, rest: Seq<char>)
    requires
        no_crlf(line),
        rest.len() > 0,
        rest[0] != '\r',
    ensures
        find_term(line + crlf() + rest, 0) == line.len() + 2 + find_term(rest, 0),
{
    let s = line + crlf() + rest;
    let e = line.len() as int;
    assert forall|j: int| 0 <= j < e + 2 implies !#[trigger] term_at(s, j) by {
        if j + 1 < e {
            assert(s[j] == line[j] && s[j + 1] == line[j + 1]);
        } else if j + 1 == e {
            assert(s[j + 1] == '\r');
        } else if j == e {
            assert(s[j + 2] == rest[0]);
        } else {
            assert(s[j] == '\n');
        }
    }
    lemma_find_term_skip(s, 0, e + 2);
    lemma_find_term_shift(s, e + 2, 0);
    assert(s.subrange(e + 2, s.len() as int) =~= rest);
}

/// The fields of a signal that its header lines carry: all but the body.
pub open spec fn header_fields(d: SignalView) -> SignalView {
    SignalView { message: None, ..d }
}

/// Whether a username comes back from its header line unchanged: it holds no line
/// terminator and no white space at either end.
pub open spec fn clean_username(u: Seq<char>) -> bool {
    no_crlf(u) && (u.len() > 0 ==> !white_space(u[0]) && !white_space(u.last()))
}

/// Reading an optional header line at the start of a text.
proof fn lemma_scan_part(d: SignalView, h: Option<HeaderView>, part: Seq<char>, rest: Seq<char>)
    requires
        h matches Some(x) ==> part == header_text(x),
        h is None ==> part == Seq::<char>::empty(),
        h matches Some(HeaderView::Username(u)) ==> clean_username(u),
    ensures
        scan(d, part + rest, 0, 0) == scan(
            match h {
                Some(x) => read_header(d, x),
                None => d,
            },
            rest,
            0,
            0,
        ),
        (rest.len() > 0 && rest[0] != '\r') ==> (part + rest).len() > 0 && (part + rest)[0]
            != '\r',
        (rest.len() > 0 && rest[0] != '\r') ==> find_term(part + rest, 0) == part.len()
            + find_term(rest, 0),
{
    match h {
        Some(x) => {
            lemma_header_line(x);
            let c = header_content(x);
            assert(part + rest =~= c + crlf() + rest);
            lemma_scan_first_line(d, c, rest);
            if rest.len() > 0 && rest[0] != '\r' {
                lemma_find_term_after_line(c, rest);
            }
        },
        None => {
            assert(part + rest =~= rest);
        },
    }
}

/// The signal as its header lines leave it, before the with-message marker line.
pub open spec fn before_marker(d: SignalView) -> SignalView {
    SignalView { with_message: false, message: None, ..d }
}

/// What follows the header lines of a frame: the marker line, the empty line and the body,
/// when there is a body, then the frame terminator.
pub open spec fn frame_tail(d: SignalView) -> Seq<char> {
    body_part(d) + terminator()
}

proof fn lemma_tail(d: SignalView)
    requires
        d.wf(),
        d.with_message ==> scan(header_fields(d), d.message->0 + terminator(), 0, 0)
            == header_fields(d),
    ensures
        scan(before_marker(d), frame_tail(d), 0, 0) == header_fields(d),
        frame_tail(d).len() > 0,
        d.with_message ==> frame_tail(d)[0] != '\r',
        d.with_message ==> find_term(frame_tail(d), 0) == 12,
        d.with_message ==> frame_tail(d).len() >= 16,
        d.with_message ==> frame_tail(d).subrange(16, frame_tail(d).len() as int) == d.message->0
            + terminator(),
{
    let r4 = frame_tail(d);
    let d4 = before_marker(d);
    let wm = header_content(HeaderView::WithMessage);
    lemma_header_line(HeaderView::WithMessage);
    reveal_strlit("WITH_MESSAGE");
    if d.with_message {
        let body = d.message->0;
        let after = Seq::<char>::empty() + crlf() + (body + terminator());
        assert(r4 =~= wm + crlf() + after);
        lemma_scan_first_line(d4, wm, after);
        let d5 = read_header(d4, HeaderView::WithMessage);
        lemma_scan_first_line(d5, Seq::empty(), body + terminator());
        lemma_empty_line(d5);
        assert(d5 == header_fields(d));
        assert forall|j: int| 0 <= j < 12 implies !#[trigger] term_at(r4, j) by {
            assert(r4[j] == wm[j]);
        }
        assert(term_at(r4, 12));
        lemma_find_term_skip(r4, 0, 12);
        assert(r4.subrange(16, r4.len() as int) =~= body + terminator());
    } else {
        let e = Seq::<char>::empty();
        assert(r4 =~= e + crlf() + (e + crlf() + e));
        lemma_scan_first_line(d4, e, e + crlf() + e);
        lemma_empty_line(d4);
        lemma_scan_first_line(d4, e, e);
        assert(e.subrange(0, 0) =~= e);
        assert(d4 == header_fields(d));
    }
}

/// The header lines of a frame, before its tail.
pub open spec fn frame_head(d: SignalView) -> Seq<char> {
    username_part(d) + auth_part(d) + type_part(d) + server_part(d)
}

spec fn opt_username(d: SignalView) -> Option<HeaderView> {
    match d.username {
        Some(u) => Some(HeaderView::Username(u)),
        None => None,
    }
}

spec fn opt_auth(d: SignalView) -> Option<HeaderView> {
    match d.auth_status {
        Some(a) => Some(HeaderView::AuthStatus(a)),
        None => None,
    }
}

spec fn opt_server(d: SignalView) -> Option<HeaderView> {
    if d.server_message {
        Some(HeaderView::ServerMessage)
    } else {
        None
    }
}

spec fn after(d: SignalView, h: Option<HeaderView>) -> SignalView {
    match h {
        Some(x) => read_header(d, x),
        None => d,
    }
}

proof fn lemma_head_split(d: SignalView)
    ensures
        encode(d) == frame_head(d) + frame_tail(d),
        encode(d) == username_part(d) + (auth_part(d) + (type_part(d) + (server_part(d)
            + frame_tail(d)))),
{
    assert(encode(d) =~= frame_head(d) + frame_tail(d));
    assert(encode(d) =~= username_part(d) + (auth_part(d) + (type_part(d) + (server_part(d)
        + frame_tail(d)))));
}

proof fn lemma_head_scan(d: SignalView)
    requires
        d.signal_type is Some,
        d.username matches Some(u) ==> clean_username(u),
    ensures
        scan(SignalView::empty(), encode(d), 0, 0) == scan(before_marker(d), frame_tail(d), 0, 0),
{
    lemma_head_split(d);
    let ht = Some(HeaderView::SignalType(d.signal_type->0));
    let r4 = frame_tail(d);
    let r3 = server_part(d) + r4;
    let r2 = type_part(d) + r3;
    let r1 = auth_part(d) + r2;
    let d1 = after(SignalView::empty(), opt_username(d));
    let d2 = after(d1, opt_auth(d));
    let d3 = after(d2, ht);
    lemma_scan_part(SignalView::empty(), opt_username(d), username_part(d), r1);
    lemma_scan_part(d1, opt_auth(d), auth_part(d), r2);
    lemma_scan_part(d2, ht, type_part(d), r3);
    lemma_scan_part(d3, opt_server(d), server_part(d), r4);
    assert(after(d3, opt_server(d)) == before_marker(d));
}

proof fn lemma_head_term(d: SignalView)
    requires
        d.signal_type is Some,
        d.username matches Some(u) ==> clean_username(u),
        frame_tail(d).len() > 0,
        frame_tail(d)[0] != '\r',
    ensures
        find_term(encode(d), 0) == frame_head(d).len() + find_term(frame_tail(d), 0),
{
    lemma_head_split(d);
    let ht = Some(HeaderView::SignalType(d.signal_type->0));
    let r4 = frame_tail(d);
    let r3 = server_part(d) + r4;
    let r2 = type_part(d) + r3;
    let r1 = auth_part(d) + r2;
    let e = SignalView::empty();
    lemma_scan_part(e, opt_server(d), server_part(d), r4);
    lemma_scan_part(e, ht, type_part(d), r3);
    lemma_scan_part(e, opt_auth(d), auth_part(d), r2);
    lemma_scan_part(e, opt_username(d), username_part(d), r1);
}

/// Decoding the encoding of a signal gives the signal back. The signal has a signal type,
/// and a body exactly when it is marked as carrying one; its username holds no line
/// terminator and no white space at either end; and the lines of its body, read as header
/// lines, leave the header fields as the header lines set them.
pub proof fn lemma_round_trip(d: SignalView)
    requires
        d.wf(),
        d.signal_type is Some,
        d.username matches Some(u) ==> clean_username(u),
        d.with_message ==> scan(header_fields(d), d.message->0 + terminator(), 0, 0)
            == header_fields(d),
    ensures
        decode(encode(d)) == Some(d),
{
    lemma_tail(d);
    lemma_head_scan(d);
    lemma_head_split(d);
    let s = encode(d);
    if d.with_message {
        lemma_head_term(d);
        let p = frame_head(d).len() as int;
        let k = find_term(s, 0);
        assert(k == p + 12);
        assert(s.subrange(k + 4, s.len() as int) =~= frame_tail(d).subrange(
            16,
            frame_tail(d).len() as int,
        ));
        let rest = d.message->0 + terminator();
        assert(strip_term(rest) =~= d.message->0);
        assert(s.subrange(k + 4, s.len() as int) == rest);
        assert(decode(s) == Some(SignalView { message: Some(d.message->0), ..header_fields(d) }));
    } else {
        assert(header_fields(d) == d);
    }
}

} // verus!
