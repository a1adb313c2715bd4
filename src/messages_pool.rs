//! The bounded history of broadcast messages, with incremental reads from a cursor.

use std::collections::VecDeque;
use vstd::hash_map::StringHashMap;
use vstd::prelude::*;
use crate::types::opt_view;

verus! {

/// How many messages the history keeps.
pub const POOL_CAPACITY: usize = 256;

/// One broadcast record: a user message or a broker notice.
#[derive(Debug, Clone)]
pub struct PoolMessage {
    pub id: String,
    pub username: String,
    pub message: String,
    pub from_server: bool,
}

/// The mathematical value of a broadcast record.
pub struct MessageView {
    pub id: Seq<char>,
    pub username: Seq<char>,
    pub message: Seq<char>,
    pub from_server: bool,
}

impl View for PoolMessage {
    type V = MessageView;

    open spec fn view(&self) -> MessageView {
        MessageView {
            id: self.id@,
            username: self.username@,
            message: self.message@,
            from_server: self.from_server,
        }
    }
}

/// The views of a sequence of records.
pub open spec fn views(s: Seq<PoolMessage>) -> Seq<MessageView> {
    s.map_values(|m: PoolMessage| m@)
}

impl PoolMessage {
    pub fn new(id: String, username: String, message: String, from_server: bool) -> (r:
        PoolMessage)
        ensures
            r.id == id,
            r.username == username,
            r.message == message,
            r.from_server == from_server,
    {
        PoolMessage { id, username, message, from_server }
    }

    /// A copy of the record.
    pub fn copied(&self) -> (r: PoolMessage)
        ensures
            r@ == self@,
    {
        PoolMessage {
            id: self.id.clone(),
            username: self.username.clone(),
            message: self.message.clone(),
            from_server: self.from_server,
        }
    }
}

/// Index of the last record of `s` with this id, or -1 when none has it.
pub open spec fn last_pos(s: Seq<MessageView>, id: Seq<char>) -> int
    decreases s.len(),
{
    if s.len() == 0 {
        -1
    } else if s.last().id == id {
        s.len() - 1
    } else {
        last_pos(s.drop_last(), id)
    }
}

/// The history after one append: the record goes last, and when the history is full
/// the oldest record leaves.
pub open spec fn appended(s: Seq<MessageView>, m: MessageView) -> Seq<MessageView> {
    if s.len() < POOL_CAPACITY {
        s.push(m)
    } else {
        s.subrange(s.len() - (POOL_CAPACITY - 1), s.len() as int).push(m)
    }
}

/// The history after appending each record of `ms`, in order.
pub open spec fn fill(s: Seq<MessageView>, ms: Seq<MessageView>) -> Seq<MessageView>
    decreases ms.len(),
{
    if ms.len() == 0 {
        s
    } else {
        appended(fill(s, ms.drop_last()), ms.last())
    }
}

/// The id of the newest record of `r`, if there is one.
pub open spec fn newest_id(r: Seq<MessageView>) -> Option<Seq<char>> {
    if r.len() == 0 {
        None
    } else {
        Some(r.last().id)
    }
}

/// What a read from `cursor` returns: the records after the last one with that id, or,
/// when no record has it, every record; and the id of the newest record returned.
pub open spec fn read_since(s: Seq<MessageView>, cursor: Seq<char>) -> (Seq<MessageView>, Option<
    Seq<char>,
>) {
    let p = last_pos(s, cursor);
    let r = if p >= 0 {
        s.subrange(p + 1, s.len() as int)
    } else {
        s
    };
    (r, newest_id(r))
}

/// The cursor that a reader holds after a read from `cursor`: the newest returned id, or
/// `cursor` itself when nothing was returned.
pub open spec fn next_cursor(s: Seq<MessageView>, cursor: Seq<char>) -> Seq<char> {
    match read_since(s, cursor).1 {
        Some(c) => c,
        None => cursor,
    }
}

/// Where each present id stands: at the last record that has it.
pub open spec fn index_of(s: Seq<MessageView>) -> Map<Seq<char>, usize> {
    Map::new(|id: Seq<char>| last_pos(s, id) >= 0, |id: Seq<char>| last_pos(s, id) as usize)
}

/// The shared history: at most [`POOL_CAPACITY`] records in arrival order, with an index
/// from id to position.
pub struct MessagesPool {
    pool: VecDeque<PoolMessage>,
    indexes: StringHashMap<usize>,
}

impl View for MessagesPool {
    type V = Seq<MessageView>;

    closed spec fn view(&self) -> Seq<MessageView> {
        views(self.pool@)
    }
}

proof fn lemma_last_pos_bounds(s: Seq<MessageView>, id: Seq<char>)
    ensures
        -1 <= last_pos(s, id) < s.len(),
        last_pos(s, id) >= 0 ==> s[last_pos(s, id)].id == id,
    decreases s.len(),
{
    if s.len() > 0 && s.last().id != id {
        lemma_last_pos_bounds(s.drop_last(), id);
    }
}

proof fn lemma_last_pos_push(s: Seq<MessageView>, m: MessageView, id: Seq<char>)
    ensures
        last_pos(s.push(m), id) == if m.id == id {
            s.len() as int
        } else {
            last_pos(s, id)
        },
{
    assert(s.push(m).drop_last() =~= s);
}

proof fn lemma_index_push(s: Seq<MessageView>, m: MessageView)
    ensures
        index_of(s.push(m)) =~= index_of(s).insert(m.id, s.len() as usize),
{
    assert forall|id: Seq<char>| #[trigger] last_pos(s.push(m), id) == if m.id == id {
        s.len() as int
    } else {
        last_pos(s, id)
    } by {
        lemma_last_pos_push(s, m, id);
    }
}

impl MessagesPool {
    /// The history holds at most its capacity, and the index agrees with it.
    pub closed spec fn wf(&self) -> bool {
        &&& self.pool@.len() <= POOL_CAPACITY
        &&& self.indexes@ == index_of(self@)
    }

    pub fn new() -> (r: MessagesPool)
        ensures
            r.wf(),
            r@ == Seq::<MessageView>::empty(),
    {
        let r = MessagesPool { pool: VecDeque::new(), indexes: StringHashMap::new() };
        assert(views(r.pool@) =~= Seq::<MessageView>::empty());
        assert(r.indexes@ =~= index_of(r@));
        r
    }

    pub fn len(&self) -> (r: usize)
        requires
            self.wf(),
        ensures
            r == self@.len(),
            r <= POOL_CAPACITY,
    {
        self.pool.len()
    }

    /// Appends a record; once the history is full, the oldest record is evicted.
    pub fn push(&mut self, v: PoolMessage)
        requires
            old(self).wf(),
        ensures
            final(self).wf(),
            final(self)@ == appended(old(self)@, v@),
    {
        let ghost s = self@;
        if self.pool.len() == POOL_CAPACITY {
            self.pool.pop_front();
            self.pool.push_back(v);
            assert(self@ =~= appended(s, v@));
            let mut rebuilt: StringHashMap<usize> = StringHashMap::new();
            let n = self.pool.len();
            let mut j: usize = 0;
            while j < n
                invariant
                    n == self.pool@.len() == POOL_CAPACITY,
                    j <= n,
                    rebuilt@ == index_of(self@.take(j as int)),
                decreases n - j,
            {
                proof {
                    assert(self@.take(j + 1) =~= self@.take(j as int).push(self@[j as int]));
                    lemma_index_push(self@.take(j as int), self@[j as int]);
                }
                rebuilt.insert(self.pool[j].id.clone(), j);
                j = j + 1;
            }
            assert(self@.take(n as int) =~= self@);
            self.indexes = rebuilt;
        } else {
            let id = v.id.clone();
            let index = self.pool.len();
            self.pool.push_back(v);
            proof {
                assert(self@ =~= s.push(v@));
                lemma_index_push(s, v@);
            }
            self.indexes.insert(id, index);
        }
    }

    /// Copies of the records at positions `from..` of the history.
    fn copy_from(&self, from: usize) -> (r: Vec<PoolMessage>)
        requires
            from <= self@.len(),
        ensures
            views(r@) == self@.subrange(from as int, self@.len() as int),
    {
        let n = self.pool.len();
        let mut r: Vec<PoolMessage> = Vec::new();
        let mut j: usize = from;
        while j < n
            invariant
                from <= j <= n == self.pool@.len(),
                views(r@) =~= self@.subrange(from as int, j as int),
            decreases n - j,
        {
            let m = self.pool[j].copied();
            let ghost before = r@;
            r.push(m);
            assert(views(r@) =~= views(before).push(self@[j as int]));
            assert(self@.subrange(from as int, j + 1) =~= self@.subrange(from as int, j as int).push(
                self@[j as int],
            ));
            j = j + 1;
        }
        r
    }

    /// The newest record, if any.
    fn last(&self) -> (r: Option<PoolMessage>)
        ensures
            match r {
                Some(m) => self@.len() > 0 && m@ == self@.last(),
                None => self@.len() == 0,
            },
    {
        let n = self.pool.len();
        if n > 0 {
            Some(self.pool[n - 1].copied())
        } else {
            None
        }
    }

    /// The records after `id` and the new cursor; see [`read_since`].
    fn read_from(&self, id: &str) -> (r: (Vec<PoolMessage>, Option<String>))
        requires
            self.wf(),
        ensures
            (views(r.0@), opt_view(r.1)) == read_since(self@, id@),
    {
        proof {
            lemma_last_pos_bounds(self@, id@);
        }
        let from = match self.indexes.get(id) {
            Some(p) => *p + 1,
            None => 0,
        };
        let msgs = self.copy_from(from);
        let cursor = if msgs.len() == 0 {
            None
        } else {
            Some(msgs[msgs.len() - 1].id.clone())
        };
        assert(self@.subrange(0, self@.len() as int) =~= self@);
        (msgs, cursor)
    }

    /// What is new since `id`: `None` on an empty history; otherwise the records after the
    /// last one with that id, or every record when none has it (a cursor that was evicted,
    /// or never existed), in arrival order, with the id of the newest one returned.
    pub fn has_new(&self, id: &str) -> (r: Option<(Vec<PoolMessage>, Option<String>)>)
        requires
            self.wf(),
        ensures
            match r {
                Some((msgs, cursor)) => {
                    &&& self@.len() > 0
                    &&& (views(msgs@), opt_view(cursor)) == read_since(self@, id@)
                    &&& last_pos(self@, id@) < 0 ==> views(msgs@) == self@
                },
                None => self@.len() == 0,
            },
    {
        match self.last() {
            Some(_) => Some(self.read_from(id)),
            None => None,
        }
    }
}

/// Where the window of the latest [`POOL_CAPACITY`] records of a run of `n` starts.
pub open spec fn window_start(n: int) -> int {
    if n > POOL_CAPACITY {
        n - POOL_CAPACITY
    } else {
        0
    }
}

/// Appending a run of records to a history keeps the latest [`POOL_CAPACITY`] of the old
/// records followed by the new ones, in order.
pub proof fn lemma_fill_window(s: Seq<MessageView>, ms: Seq<MessageView>)
    requires
        s.len() <= POOL_CAPACITY,
    ensures
        fill(s, ms) == (s + ms).subrange(
            window_start((s.len() + ms.len()) as int),
            (s.len() + ms.len()) as int,
        ),
    decreases ms.len(),
{
    let n = (s.len() + ms.len()) as int;
    if ms.len() == 0 {
        assert((s + ms).subrange(0, n) =~= s);
    } else {
        let prev = ms.drop_last();
        lemma_fill_window(s, prev);
        assert((s + prev) =~= (s + ms).drop_last());
        let a = window_start(n - 1);
        let w = (s + prev).subrange(a, n - 1);
        if n - 1 < POOL_CAPACITY {
            assert(w.push(ms.last()) =~= (s + ms).subrange(0, n));
        } else {
            assert(w.subrange(w.len() - (POOL_CAPACITY - 1), w.len() as int).push(ms.last()) =~= (s
                + ms).subrange(n - POOL_CAPACITY, n));
        }
    }
}

/// A record with an id that no record of `b` has keeps its last position when `b` follows.
proof fn lemma_last_pos_suffix(a: Seq<MessageView>, b: Seq<MessageView>, id: Seq<char>)
    requires
        forall|i: int| 0 <= i < b.len() ==> #[trigger] b[i].id != id,
    ensures
        last_pos(a + b, id) == last_pos(a, id),
    decreases b.len(),
{
    if b.len() > 0 {
        assert((a + b).drop_last() =~= a + b.drop_last());
        lemma_last_pos_suffix(a, b.drop_last(), id);
    } else {
        assert(a + b =~= a);
    }
}

/// After more than [`POOL_CAPACITY`] appends to an empty history, a read from a cursor that
/// names no present record returns exactly the latest [`POOL_CAPACITY`] records, in append
/// order.
pub proof fn lemma_full_read_keeps_latest(ms: Seq<MessageView>, cursor: Seq<char>)
    requires
        ms.len() > POOL_CAPACITY,
        last_pos(fill(Seq::empty(), ms), cursor) < 0,
    ensures
        read_since(fill(Seq::empty(), ms), cursor).0 == ms.subrange(
            ms.len() - POOL_CAPACITY,
            ms.len() as int,
        ),
{
    lemma_fill_window(Seq::empty(), ms);
    assert(Seq::<MessageView>::empty() + ms =~= ms);
}

/// Two reads in a row, the second from the cursor that the first left, return no record
/// twice and skip none: the second returns exactly the records appended in between. This
/// holds while the record under the cursor has not been evicted (on an empty history, while
/// no more than [`POOL_CAPACITY`] records were appended) and no new record reuses its id.
pub proof fn lemma_reads_in_sequence(s: Seq<MessageView>, cursor: Seq<char>, ms: Seq<MessageView>)
    requires
        s.len() <= POOL_CAPACITY,
        forall|i: int| 0 <= i < ms.len() ==> #[trigger] ms[i].id != next_cursor(s, cursor),
        s.len() > 0 ==> last_pos(fill(s, ms), next_cursor(s, cursor)) >= 0,
        s.len() == 0 ==> ms.len() <= POOL_CAPACITY,
    ensures
        read_since(fill(s, ms), next_cursor(s, cursor)).0 == ms,
{
    let c = next_cursor(s, cursor);
    let n = (s.len() + ms.len()) as int;
    let st = window_start(n);
    lemma_fill_window(s, ms);
    lemma_last_pos_bounds(s, cursor);
    let w = fill(s, ms);
    if s.len() == 0 {
        assert(s + ms =~= ms);
        assert(w =~= ms);
        lemma_last_pos_suffix(Seq::empty(), ms, c);
        assert(Seq::<MessageView>::empty() + ms =~= ms);
    } else {
        assert(c == s.last().id);
        if st >= s.len() {
            assert(w =~= Seq::<MessageView>::empty() + ms.subrange(st - s.len(), ms.len() as int));
            lemma_last_pos_suffix(Seq::empty(), ms.subrange(st - s.len(), ms.len() as int), c);
            assert(false);
        }
        let a = (s + ms).subrange(st, s.len() as int);
        assert(w =~= a + ms);
        lemma_last_pos_suffix(a, ms, c);
        assert(a.last() == s.last());
        assert(w.subrange(a.len() as int, w.len() as int) =~= ms);
    }
}

} // verus!
