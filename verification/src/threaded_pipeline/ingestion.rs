//! Ingestion stage of the threaded pipeline: the lock-free ring it fills, the
//! line-based SSE framing of the blocking reader, and its reconnect and
//! capture bookkeeping.
use crate::backoff::{double_backoff, next_backoff, INITIAL_BACKOFF_SECS, MAX_BACKOFF_SECS};
use crate::ring::ring_push;
use crossbeam_queue::ArrayQueue;
use vstd::prelude::*;
use vstd::string::*;

verus! {

/// Where to read events from, how large the ring is, and where to capture a
/// sample of the raw stream.
pub struct IngestionConfig {
    pub sse_url: String,
    pub capacity: usize,
    pub capture_path: Option<String>,
}

#[verifier::external_type_specification]
#[verifier::external_body]
#[verifier::reject_recursive_types(T)]
pub struct ExArrayQueue<T>(ArrayQueue<T>);

/// The items an `ArrayQueue` of payloads holds, oldest first.
pub uninterp spec fn queue_items(q: ArrayQueue<(String, u64)>) -> Seq<(String, u64)>;

/// The capacity an `ArrayQueue` of payloads was made with.
pub uninterp spec fn queue_capacity(q: ArrayQueue<(String, u64)>) -> nat;

/// `ArrayQueue::new`: an empty queue of capacity `cap`.  It panics on a zero
/// capacity and when `cap + 1` has no power of two in range.
#[verifier::external_body]
fn queue_new(cap: usize) -> (q: ArrayQueue<(String, u64)>)
    requires
        0 < cap <= usize::MAX / 2,
    ensures
        queue_items(q) == Seq::<(String, u64)>::empty(),
        queue_capacity(q) == cap,
{
    ArrayQueue::new(cap)
}

/// `ArrayQueue::force_push`: appends `item`; when the queue is full, the
/// oldest item is removed first and handed back.
#[verifier::external_body]
fn queue_force_push(q: &mut ArrayQueue<(String, u64)>, item: (String, u64)) -> (evicted: Option<(String, u64)>)
    requires
        queue_items(*old(q)).len() <= queue_capacity(*old(q)),
    ensures
        queue_capacity(*final(q)) == queue_capacity(*old(q)),
        queue_items(*old(q)).len() == queue_capacity(*old(q)) ==> evicted == Some(queue_items(*old(q))[0])
            && queue_items(*final(q)) == queue_items(*old(q)).drop_first().push(item),
        queue_items(*old(q)).len() < queue_capacity(*old(q)) ==> evicted is None
            && queue_items(*final(q)) == queue_items(*old(q)).push(item),
{
    q.force_push(item)
}

/// `ArrayQueue::pop`: removes and returns the oldest item, if any.
#[verifier::external_body]
fn queue_pop(q: &mut ArrayQueue<(String, u64)>) -> (r: Option<(String, u64)>)
    ensures
        queue_capacity(*final(q)) == queue_capacity(*old(q)),
        match r {
            Some(x) => queue_items(*old(q)).len() > 0 && x == queue_items(*old(q))[0]
                && queue_items(*final(q)) == queue_items(*old(q)).drop_first(),
            None => queue_items(*old(q)).len() == 0 && queue_items(*final(q)) == queue_items(*old(q)),
        },
{
    q.pop()
}

/// Bounded ring backed by a lock-free `ArrayQueue`; items are raw payloads
/// with their ingest timestamp in microseconds.  When full, a push evicts the
/// oldest item.
pub struct BoundedRing {
    queue: ArrayQueue<(String, u64)>,
}

impl View for BoundedRing {
    type V = Seq<(String, u64)>;

    closed spec fn view(&self) -> Seq<(String, u64)> {
        queue_items(self.queue)
    }
}

impl BoundedRing {
    /// The capacity the ring was made with.
    pub closed spec fn cap(&self) -> nat {
        queue_capacity(self.queue)
    }

    pub open spec fn wf(&self) -> bool {
        &&& self.cap() > 0
        &&& self@.len() <= self.cap()
    }

    /// An empty ring of the given capacity; the capacity must be positive.
    pub fn new(capacity: usize) -> (r: Self)
        requires
            0 < capacity <= usize::MAX / 2,
        ensures
            r.wf(),
            r@ == Seq::<(String, u64)>::empty(),
            r.cap() == capacity,
    {
        BoundedRing { queue: queue_new(capacity) }
    }

    /// Pushes an item.  Returns `true` if the oldest item was evicted to make
    /// room.
    pub fn push(&mut self, item: (String, u64)) -> (dropped: bool)
        requires
            old(self).wf(),
        ensures
            final(self).wf(),
            (final(self)@, dropped) == ring_push(old(self)@, old(self).cap(), item),
            final(self).cap() == old(self).cap(),
    {
        let evicted = queue_force_push(&mut self.queue, item);
        proof {
            if evicted is Some {
                assert(old(self)@.drop_first() =~= old(self)@.skip(1));
            }
        }
        evicted.is_some()
    }

    /// Pops the oldest item, or `None` if the ring is empty.
    pub fn pop(&mut self) -> (r: Option<(String, u64)>)
        requires
            old(self).wf(),
        ensures
            final(self).wf(),
            match r {
                Some(x) => old(self)@.len() > 0 && x == old(self)@[0] && final(self)@ == old(self)@.drop_first(),
                None => old(self)@.len() == 0 && final(self)@ == old(self)@,
            },
            final(self).cap() == old(self).cap(),
    {
        queue_pop(&mut self.queue)
    }
}

/// Unicode `White_Space` characters, the set `str::trim` removes.
pub open spec fn is_white_space(c: char) -> bool {
    ||| ('\u{9}' <= c <= '\u{d}')
    ||| c == ' '
    ||| c == '\u{85}'
    ||| c == '\u{a0}'
    ||| c == '\u{1680}'
    ||| ('\u{2000}' <= c <= '\u{200a}')
    ||| c == '\u{2028}'
    ||| c == '\u{2029}'
    ||| c == '\u{202f}'
    ||| c == '\u{205f}'
    ||| c == '\u{3000}'
}

/// `s` without leading white space.
pub open spec fn trim_start(s: Seq<char>) -> Seq<char>
    decreases s.len(),
{
    if s.len() > 0 && is_white_space(s[0]) {
        trim_start(s.drop_first())
    } else {
        s
    }
}

/// `s` without trailing white space.
pub open spec fn trim_end(s: Seq<char>) -> Seq<char>
    decreases s.len(),
{
    if s.len() > 0 && is_white_space(s.last()) {
        trim_end(s.drop_last())
    } else {
        s
    }
}

/// `s` without leading and trailing white space.
pub open spec fn trimmed(s: Seq<char>) -> Seq<char> {
    trim_end(trim_start(s))
}

/// Whether `c` is Unicode white space.
fn white_space(c: char) -> (r: bool)
    ensures
        r == is_white_space(c),
{
    ('\u{9}' <= c && c <= '\u{d}') || c == ' ' || c == '\u{85}' || c == '\u{a0}' || c == '\u{1680}'
        || ('\u{2000}' <= c && c <= '\u{200a}') || c == '\u{2028}' || c == '\u{2029}' || c == '\u{202f}'
        || c == '\u{205f}' || c == '\u{3000}'
}

/// The slice without leading and trailing Unicode white space, as
/// `str::trim` gives it.
fn trim_str(s: &str) -> (r: &str)
    ensures
        r@ == trimmed(s@),
{
    let n = s.unicode_len();
    let mut i: usize = 0;
    assert(s@.subrange(0, n as int) =~= s@);
    while i < n && white_space(s.get_char(i))
        invariant
            n == s@.len(),
            i <= n,
            trim_start(s@) == trim_start(s@.subrange(i as int, n as int)),
        decreases n - i,
    {
        assert(s@.subrange(i as int, n as int).drop_first() =~= s@.subrange(i + 1, n as int));
        i = i + 1;
    }
    let ghost head = s@.subrange(i as int, n as int);
    proof {
        if i < n {
            assert(head[0] == s@[i as int]);
        }
    }
    assert(trim_start(s@) == head);
    let mut j: usize = n;
    while j > i && white_space(s.get_char(j - 1))
        invariant
            n == s@.len(),
            i <= j <= n,
            head == s@.subrange(i as int, n as int),
            trim_end(head) == trim_end(s@.subrange(i as int, j as int)),
        decreases j - i,
    {
        assert(s@.subrange(i as int, j as int).drop_last() =~= s@.subrange(i as int, j - 1));
        j = j - 1;
    }
    proof {
        let t = s@.subrange(i as int, j as int);
        if j > i {
            assert(t.last() == s@[j - 1]);
        }
        assert(trim_end(t) == t);
    }
    s.substring_char(i, j)
}

/// The field name that introduces an SSE data line.
pub open spec fn data_field() -> Seq<char> {
    seq!['d', 'a', 't', 'a', ':']
}

/// The payload of an SSE line: for a line that starts with `data:`, the rest of
/// the line without surrounding white space, unless that is empty.
pub open spec fn sse_payload(line: Seq<char>) -> Option<Seq<char>> {
    if line.len() >= 5 && line.subrange(0, 5) == data_field() && trimmed(line.skip(5)).len() > 0 {
        Some(trimmed(line.skip(5)))
    } else {
        None
    }
}

/// Leading white space: `trim_start(s)` drops exactly the white space before
/// the first other character.
proof fn lemma_trim_start_drops_leading(s: Seq<char>) -> (i: int)
    ensures
        0 <= i <= s.len(),
        trim_start(s) == s.skip(i),
        forall|k: int| 0 <= k < i ==> is_white_space(#[trigger] s[k]),
        i < s.len() ==> !is_white_space(s[i]),
    decreases s.len(),
{
    if s.len() > 0 && is_white_space(s[0]) {
        let j = lemma_trim_start_drops_leading(s.drop_first());
        assert(s.drop_first().skip(j) =~= s.skip(j + 1));
        assert forall|k: int| 0 <= k < j + 1 implies is_white_space(#[trigger] s[k]) by {
            if k > 0 {
                assert(s[k] == s.drop_first()[k - 1]);
            }
        }
        if j + 1 < s.len() {
            assert(s[j + 1] == s.drop_first()[j]);
        }
        j + 1
    } else {
        assert(s.skip(0) =~= s);
        0
    }
}

/// Trailing white space: `trim_end(s)` drops exactly the white space after
/// the last other character.
proof fn lemma_trim_end_drops_trailing(s: Seq<char>) -> (j: int)
    ensures
        0 <= j <= s.len(),
        trim_end(s) == s.take(j),
        forall|k: int| j <= k < s.len() ==> is_white_space(#[trigger] s[k]),
        j > 0 ==> !is_white_space(s[j - 1]),
    decreases s.len(),
{
    if s.len() > 0 && is_white_space(s.last()) {
        let j = lemma_trim_end_drops_trailing(s.drop_last());
        assert(s.drop_last().take(j) =~= s.take(j));
        assert forall|k: int| j <= k < s.len() implies is_white_space(#[trigger] s[k]) by {
            if k < s.len() - 1 {
                assert(s[k] == s.drop_last()[k]);
            }
        }
        if j > 0 {
            assert(s[j - 1] == s.drop_last()[j - 1]);
        }
        j
    } else {
        assert(s.take(s.len() as int) =~= s);
        s.len() as int
    }
}

/// The payload of a data line, whatever its length: for a line `data:` +
/// `rest` where `rest` holds a character other than white space, the payload
/// is the part of `rest` from its first to its last such character; only
/// white space is cut away on either side.  A line that holds only white space
/// after `data:`, or that does not start with `data:`, carries no payload.
pub proof fn law_data_line_payload(line: Seq<char>, rest: Seq<char>)
    requires
        line == data_field() + rest,
    ensures
        (exists|k: int| 0 <= k < rest.len() && !is_white_space(#[trigger] rest[k])) ==> exists|i: int, j: int|
            {
                &&& 0 <= i < j <= rest.len()
                &&& sse_payload(line) == Some(rest.subrange(i, j))
                &&& !is_white_space(rest[i])
                &&& !is_white_space(rest[j - 1])
                &&& forall|k: int| 0 <= k < i ==> is_white_space(#[trigger] rest[k])
                &&& forall|k: int| j <= k < rest.len() ==> is_white_space(#[trigger] rest[k])
            },
        (forall|k: int| 0 <= k < rest.len() ==> is_white_space(#[trigger] rest[k])) ==> sse_payload(line) is None,
{
    assert(line.subrange(0, 5) =~= data_field());
    assert(line.skip(5) =~= rest);
    let i = lemma_trim_start_drops_leading(rest);
    let u = rest.skip(i);
    let j0 = lemma_trim_end_drops_trailing(u);
    assert(trimmed(rest) == u.take(j0));
    assert(u.take(j0) =~= rest.subrange(i, i + j0));
    if exists|k: int| 0 <= k < rest.len() && !is_white_space(#[trigger] rest[k]) {
        let k = choose|k: int| 0 <= k < rest.len() && !is_white_space(#[trigger] rest[k]);
        assert(i <= k);
        assert(u[k - i] == rest[k]);
        assert(k - i < j0);
        assert(u[j0 - 1] == rest[i + j0 - 1]);
        assert(u[0] == rest[i]);
        assert forall|m: int| i + j0 <= m < rest.len() implies is_white_space(#[trigger] rest[m]) by {
            assert(u[m - i] == rest[m]);
        }
        assert(sse_payload(line) == Some(rest.subrange(i, i + j0)));
    }
    if forall|k: int| 0 <= k < rest.len() ==> is_white_space(#[trigger] rest[k]) {
        if j0 > 0 {
            assert(u[j0 - 1] == rest[i + j0 - 1]);
        }
        assert(trimmed(rest).len() == 0);
    }
}

/// A line that does not start with `data:` carries no payload.
pub proof fn law_other_lines_carry_nothing(line: Seq<char>)
    requires
        !(line.len() >= 5 && line.subrange(0, 5) == data_field()),
    ensures
        sse_payload(line) is None,
{
}

/// Extracts the payload of one line of the event stream: comment, event-type
/// and blank lines give `None`, as do data lines that carry nothing.
pub fn sse_data(line: &str) -> (r: Option<String>)
    ensures
        match r {
            Some(d) => sse_payload(line@) == Some(d@),
            None => sse_payload(line@) is None,
        },
{
    let n = line.unicode_len();
    if n < 5 {
        return None;
    }
    let is_data = line.get_char(0) == 'd' && line.get_char(1) == 'a' && line.get_char(2) == 't'
        && line.get_char(3) == 'a' && line.get_char(4) == ':';
    if !is_data {
        proof {
            if line@.subrange(0, 5) == data_field() {
                assert(line@.subrange(0, 5)[0] == line@[0]);
                assert(line@.subrange(0, 5)[1] == line@[1]);
                assert(line@.subrange(0, 5)[2] == line@[2]);
                assert(line@.subrange(0, 5)[3] == line@[3]);
                assert(line@.subrange(0, 5)[4] == line@[4]);
            }
        }
        return None;
    }
    proof {
        assert(line@.subrange(0, 5) =~= data_field());
    }
    let rest = line.substring_char(5, n);
    assert(rest@ =~= line@.skip(5));
    let data = trim_str(rest);
    if data.unicode_len() == 0 {
        None
    } else {
        Some(data.to_owned())
    }
}

/// Most raw events appended to the capture file.
pub const CAPTURE_LIMIT: usize = 500;

/// Reconnect back-off and capture progress of the blocking SSE reader.
pub struct IngestionSession {
    backoff_secs: u64,
    captured: usize,
}

impl IngestionSession {
    pub closed spec fn backoff(&self) -> u64 {
        self.backoff_secs
    }

    pub closed spec fn captured_count(&self) -> nat {
        self.captured as nat
    }

    pub open spec fn wf(&self) -> bool {
        &&& 1 <= self.backoff() <= MAX_BACKOFF_SECS
        &&& self.captured_count() <= CAPTURE_LIMIT
    }

    /// A session before the first connection: back-off 1 s, nothing captured.
    pub fn new() -> (s: Self)
        ensures
            s.wf(),
            s.backoff() == INITIAL_BACKOFF_SECS,
            s.captured_count() == 0,
    {
        IngestionSession { backoff_secs: INITIAL_BACKOFF_SECS, captured: 0 }
    }

    /// The current back-off, in seconds.
    pub fn backoff_secs(&self) -> (b: u64)
        ensures
            b == self.backoff(),
    {
        self.backoff_secs
    }

    /// The request went through: the back-off is reset to 1 s.
    pub fn on_connected(&mut self)
        requires
            old(self).wf(),
        ensures
            final(self).wf(),
            final(self).backoff() == INITIAL_BACKOFF_SECS,
            final(self).captured_count() == old(self).captured_count(),
    {
        self.backoff_secs = INITIAL_BACKOFF_SECS;
    }

    /// The request failed or the stream ended: returns how long to wait before
    /// reconnecting and doubles the back-off, up to 30 s.
    pub fn on_disconnect(&mut self) -> (wait_secs: u64)
        requires
            old(self).wf(),
        ensures
            final(self).wf(),
            wait_secs == old(self).backoff(),
            final(self).backoff() == next_backoff(old(self).backoff()),
            final(self).captured_count() == old(self).captured_count(),
    {
        let wait = self.backoff_secs;
        self.backoff_secs = double_backoff(wait);
        wait
    }

    /// Whether a payload should be appended to the capture file: a path is
    /// configured and fewer than 500 payloads have been captured.
    pub fn wants_capture(&self, path_configured: bool) -> (r: bool)
        ensures
            r == (path_configured && self.captured_count() < CAPTURE_LIMIT),
    {
        path_configured && self.captured < CAPTURE_LIMIT
    }

    /// A payload was appended to the capture file.
    pub fn on_captured(&mut self)
        requires
            old(self).wf(),
            old(self).captured_count() < CAPTURE_LIMIT,
        ensures
            final(self).wf(),
            final(self).captured_count() == old(self).captured_count() + 1,
            final(self).backoff() == old(self).backoff(),
    {
        self.captured = self.captured + 1;
    }
}

} // verus!
