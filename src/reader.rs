//! Assembling frames from the lines of a byte stream.
//!
//! The reader is fed one event per read attempt and decides what follows: keep reading,
//! hand out a complete frame, or give up. A frame ends at a line that leaves the text
//! ending in CRLF CRLF, unless the text holds the with-message marker and the header block
//! has only just ended: then the body follows, and the next such line ends the frame.

use vstd::prelude::*;
use crate::text::{chars_of, seg_eq};
use crate::types::{header_text, term_at, HeaderView};

verus! {

/// The outcome of one read attempt on the transport.
pub enum ReadEvent {
    /// A line was read, terminator included.
    Line(String),
    /// Nothing could be read yet (a read timed out or would block).
    WouldBlock,
    /// The peer closed the stream (a read of zero bytes).
    Closed,
    /// The transport failed.
    Failed,
}

/// What the reader decides after an event.
pub enum ReadOutcome {
    /// The frame is not complete: read again.
    Pending,
    /// A complete frame.
    Frame(String),
    /// Too many reads found nothing.
    Aborted,
    /// The peer closed the stream.
    ClosedByPeer,
    /// The transport failed.
    Broken,
}

/// The with-message marker line, as it stands in a frame.
pub open spec fn marker() -> Seq<char> {
    header_text(HeaderView::WithMessage)
}

/// Whether the with-message marker line occurs in `s`.
pub open spec fn has_marker(s: Seq<char>) -> bool {
    exists|i: int|
        0 <= i && i + marker().len() <= s.len() && #[trigger] s.subrange(i, i + marker().len())
            == marker()
}

/// Whether `s` ends with the frame terminator.
pub open spec fn ends_with_term(s: Seq<char>) -> bool {
    s.len() >= 4 && term_at(s, s.len() - 4)
}

/// The mathematical state of a reader.
pub struct ReaderView {
    /// The text of the frame read so far.
    pub text: Seq<char>,
    /// Whether the header block of a frame with a body has ended.
    pub headers_read: bool,
    /// How many reads of this frame found nothing.
    pub failed_reads: nat,
    /// After how many such reads the reader gives up, if ever.
    pub max_read_try: Option<u8>,
}

/// The state after reading `line`, and the frame completed by it, if any.
pub open spec fn step_line(r: ReaderView, line: Seq<char>) -> (ReaderView, Option<Seq<char>>) {
    let t = r.text + line;
    if ends_with_term(t) && (!has_marker(t) || r.headers_read) {
        (ReaderView { text: Seq::empty(), headers_read: false, failed_reads: 0, ..r }, Some(t))
    } else if ends_with_term(t) {
        (ReaderView { text: t, headers_read: true, ..r }, None)
    } else {
        (ReaderView { text: t, ..r }, None)
    }
}

/// Whether `cs` holds the with-message marker line.
fn has_marker_in(cs: &Vec<char>) -> (r: bool)
    ensures
        r == has_marker(cs@),
{
    proof {
        reveal_strlit("WITH_MESSAGE");
    }
    let ghost mk = marker();
    assert(mk.len() == 14);
    let n = cs.len();
    let mut i: usize = 0;
    while i < n && n - i >= 14
        invariant
            i <= n == cs@.len(),
            mk == marker(),
            mk.len() == 14,
            forall|j: int| 0 <= j < i ==> #[trigger] cs@.subrange(j, j + 14) != mk,
        decreases n - i,
    {
        let word = seg_eq(cs, i, i + 12, "WITH_MESSAGE");
        if word && cs[i + 12] == '\r' && cs[i + 13] == '\n' {
            assert(cs@.subrange(i as int, i + 14) =~= mk);
            return true;
        }
        assert(cs@.subrange(i as int, i + 14) != mk) by {
            if cs@.subrange(i as int, i + 14) == mk {
                assert(cs@.subrange(i as int, i + 12) =~= mk.subrange(0, 12));
                assert(mk.subrange(0, 12) =~= "WITH_MESSAGE"@);
                assert(cs@[i + 12] == mk[12]);
                assert(cs@[i + 13] == mk[13]);
            }
        }
        i = i + 1;
    }
    false
}

/// Assembles frames from the lines of one stream.
pub struct FrameReader {
    text: String,
    chars: Vec<char>,
    headers_read: bool,
    failed_reads: u8,
    max_read_try: Option<u8>,
}

impl View for FrameReader {
    type V = ReaderView;

    closed spec fn view(&self) -> ReaderView {
        ReaderView {
            text: self.text@,
            headers_read: self.headers_read,
            failed_reads: self.failed_reads as nat,
            max_read_try: self.max_read_try,
        }
    }
}

impl FrameReader {
    /// The reader's text and its characters agree.
    pub closed spec fn wf(&self) -> bool {
        self.chars@ == self.text@
    }

    /// A reader at the start of a frame; with `max_read_try`, it gives up on the read that
    /// makes that many reads of one frame find nothing, and without, it waits for ever.
    pub fn new(max_read_try: Option<u8>) -> (r: FrameReader)
        ensures
            r.wf(),
            r@ == (ReaderView {
                text: Seq::empty(),
                headers_read: false,
                failed_reads: 0,
                max_read_try,
            }),
    {
        FrameReader {
            text: String::new(),
            chars: Vec::new(),
            headers_read: false,
            failed_reads: 0,
            max_read_try,
        }
    }

    /// Decides what follows one read attempt.
    pub fn on_event(&mut self, event: ReadEvent) -> (r: ReadOutcome)
        requires
            old(self).wf(),
        ensures
            final(self).wf(),
            match event {
                ReadEvent::Line(line) => {
                    let (next, done) = step_line(old(self)@, line@);
                    &&& final(self)@ == next
                    &&& match done {
                        Some(t) => r matches ReadOutcome::Frame(f) && f@ == t,
                        None => r is Pending,
                    }
                },
                ReadEvent::WouldBlock => match old(self)@.max_read_try {
                    Some(m) => if old(self)@.failed_reads + 1 >= m {
                        r is Aborted
                    } else {
                        &&& r is Pending
                        &&& final(self)@ == (ReaderView {
                            failed_reads: old(self)@.failed_reads + 1,
                            ..old(self)@
                        })
                    },
                    None => r is Pending && final(self)@ == old(self)@,
                },
                ReadEvent::Closed => r is ClosedByPeer,
                ReadEvent::Failed => r is Broken,
            },
    {
        match event {
            ReadEvent::Line(line) => {
                self.text.append(line.as_str());
                let mut more = chars_of(line.as_str());
                self.chars.append(&mut more);
                let n = self.chars.len();
                let ended = n >= 4 && self.chars[n - 4] == '\r' && self.chars[n - 3] == '\n'
                    && self.chars[n - 2] == '\r' && self.chars[n - 1] == '\n';
                if ended {
                    if self.headers_read || !has_marker_in(&self.chars) {
                        let frame = self.text.clone();
                        self.text = String::new();
                        self.chars = Vec::new();
                        self.headers_read = false;
                        self.failed_reads = 0;
                        return ReadOutcome::Frame(frame);
                    }
                    self.headers_read = true;
                }
                ReadOutcome::Pending
            },
            ReadEvent::WouldBlock => {
                match self.max_read_try {
                    Some(m) => {
                        if self.failed_reads as u16 + 1 >= m as u16 {
                            return ReadOutcome::Aborted;
                        }
                        self.failed_reads = self.failed_reads + 1;
                        ReadOutcome::Pending
                    },
                    None => ReadOutcome::Pending,
                }
            },
            ReadEvent::Closed => ReadOutcome::ClosedByPeer,
            ReadEvent::Failed => ReadOutcome::Broken,
        }
    }
}

} // verus!
