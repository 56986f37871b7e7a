//! Depth-server protocol, depth cache and subscriber queues.
//!
//! Server frames (little-endian):
//! - `S` snapshot: u8 entry_count, then entry_count x (u8 key_index, u16 depth_raw)
//! - `D` event:    u8 key_index, u16 depth_raw
//! - `E` error:    u8 error_code

use vstd::prelude::*;
use std::collections::HashMap;
use std::collections::VecDeque;

verus! {

/// One depth reading.
#[derive(Debug, Clone, Copy, PartialEq, Eq, Structural)]
pub struct DepthEvent {
    pub key_index: u8,
    pub depth_raw: u16,
}

/// A queued event for subscribers: a per-key depth update, a full snapshot
/// (on connect / reconnect / explicit query), or a connection-down marker.
#[derive(Debug, Clone, PartialEq)]
pub enum DepthUpdate {
    /// One key's depth changed.
    Event(DepthEvent),
    /// Full state: all keys' last-known depths (keys absent are at rest).
    Snapshot(Vec<DepthEvent>),
    /// The connection to the depth server went down.
    Disconnected,
}

/// Mathematical model of a [`DepthUpdate`].
pub enum UpdateModel {
    Event(DepthEvent),
    Snapshot(Seq<DepthEvent>),
    Disconnected,
}

impl View for DepthUpdate {
    type V = UpdateModel;

    open spec fn view(&self) -> UpdateModel {
        match self {
            DepthUpdate::Event(e) => UpdateModel::Event(*e),
            DepthUpdate::Snapshot(v) => UpdateModel::Snapshot(v@),
            DepthUpdate::Disconnected => UpdateModel::Disconnected,
        }
    }
}

pub open spec fn updates_view(q: Seq<DepthUpdate>) -> Seq<UpdateModel> {
    q.map_values(|u: DepthUpdate| u@)
}

/// A parsed server frame.
#[derive(Debug, PartialEq)]
pub enum Frame {
    Snapshot(Vec<DepthEvent>),
    Event(DepthEvent),
    Error(u8),
}

/// Mathematical model of a [`Frame`].
pub enum FrameModel {
    Snapshot(Seq<DepthEvent>),
    Event(DepthEvent),
    Error(u8),
}

impl View for Frame {
    type V = FrameModel;

    open spec fn view(&self) -> FrameModel {
        match self {
            Frame::Snapshot(v) => FrameModel::Snapshot(v@),
            Frame::Event(e) => FrameModel::Event(*e),
            Frame::Error(c) => FrameModel::Error(*c),
        }
    }
}

/// The newest `capacity` items of `q`; all of `q` when `capacity` is 0
/// (unbounded) or `q` is short enough.
pub open spec fn keep_newest<T>(q: Seq<T>, capacity: nat) -> Seq<T> {
    if capacity == 0 || q.len() <= capacity {
        q
    } else {
        q.skip(q.len() - capacity)
    }
}

/// What one wake-up of a blocking receive does.
#[derive(Debug, PartialEq)]
pub enum RecvStep {
    /// Hand this update to the caller.
    Item(DepthUpdate),
    /// Return nothing: the queue is closed and drained, or the wait timed out.
    Done,
    /// Nothing yet: wait for a producer.
    Wait,
}

/// One receive decision on a queue holding `q`: the oldest update and the
/// rest of the queue; nothing when the queue is closed and drained or the
/// wait timed out; otherwise wait, the queue untouched.
pub open spec fn recv_outcome(q: Seq<DepthUpdate>, closed: bool, timed_out: bool) -> (RecvStep, Seq<DepthUpdate>) {
    if q.len() > 0 {
        (RecvStep::Item(q[0]), q.drop_first())
    } else if closed || timed_out {
        (RecvStep::Done, q)
    } else {
        (RecvStep::Wait, q)
    }
}

/// The answers of `n` successive receives on a closed queue holding `q`.
pub open spec fn receives_when_closed(q: Seq<DepthUpdate>, n: nat) -> Seq<RecvStep>
    decreases n,
{
    if n == 0 {
        Seq::empty()
    } else {
        let (r, rest) = recv_outcome(q, true, false);
        seq![r] + receives_when_closed(rest, (n - 1) as nat)
    }
}

/// A closed queue drains what it holds, oldest first, then answers nothing
/// on every later receive; it never waits.
pub proof fn lemma_closed_queue_drains(q: Seq<DepthUpdate>, n: nat)
    ensures
        receives_when_closed(q, n).len() == n,
        forall|i: int| 0 <= i < n && i < q.len() ==> receives_when_closed(q, n)[i] == RecvStep::Item(q[i]),
        forall|i: int| 0 <= i < n && i >= q.len() ==> receives_when_closed(q, n)[i] == RecvStep::Done,
    decreases n,
{
    if n > 0 {
        let (r, rest) = recv_outcome(q, true, false);
        lemma_closed_queue_drains(rest, (n - 1) as nat);
        let tail = receives_when_closed(rest, (n - 1) as nat);
        assert forall|i: int| 0 <= i < n && i < q.len() implies receives_when_closed(q, n)[i] == RecvStep::Item(q[i]) by {
            if i > 0 {
                assert(receives_when_closed(q, n)[i] == tail[i - 1]);
                assert(rest[i - 1] == q[i]);
            }
        }
        assert forall|i: int| 0 <= i < n && i >= q.len() implies receives_when_closed(q, n)[i] == RecvStep::Done by {
            if i > 0 {
                assert(receives_when_closed(q, n)[i] == tail[i - 1]);
            }
        }
    }
}

/// A subscriber's mailbox: a bounded drop-oldest queue of updates fed by the
/// reader, closed when the reader stops.
pub struct EventReceiver {
    deque: VecDeque<DepthUpdate>,
    capacity: usize,
    closed: bool,
}

impl EventReceiver {
    /// The queued updates, oldest first.
    pub closed spec fn queued(&self) -> Seq<DepthUpdate> {
        self.deque@
    }

    /// The bound on the queue length (0 = unbounded).
    pub closed spec fn spec_capacity(&self) -> nat {
        self.capacity as nat
    }

    /// Whether the producer has finished.
    pub closed spec fn spec_closed(&self) -> bool {
        self.closed
    }

    /// An empty, open queue.
    pub fn new(capacity: usize) -> (r: Self)
        ensures
            r.queued() == Seq::<DepthUpdate>::empty(),
            r.spec_capacity() == capacity,
            !r.spec_closed(),
    {
        EventReceiver { deque: VecDeque::new(), capacity, closed: false }
    }

    /// A new subscriber's queue: seeded with the current state as one
    /// snapshot, so the subscriber immediately knows the last-known depths.
    pub fn with_snapshot(snapshot: Vec<DepthEvent>, capacity: usize) -> (r: Self)
        ensures
            updates_view(r.queued()) == seq![UpdateModel::Snapshot(snapshot@)],
            r.spec_capacity() == capacity,
            !r.spec_closed(),
    {
        let mut deque: VecDeque<DepthUpdate> = VecDeque::new();
        let ghost snap = snapshot@;
        deque.push_back(DepthUpdate::Snapshot(snapshot));
        let r = EventReceiver { deque, capacity, closed: false };
        assert(updates_view(r.queued()) =~= seq![UpdateModel::Snapshot(snap)]);
        r
    }

    /// Push into the queue, dropping the OLDEST entries on overflow.
    ///
    /// Drop-oldest is deliberate: each update carries absolute depths, so
    /// dropping an old one loses nothing about the current position, and
    /// keeping the newest preserves release edges.
    pub fn push_oldest_drop(&mut self, update: DepthUpdate)
        ensures
            final(self).queued() == keep_newest(old(self).queued().push(update), old(self).spec_capacity()),
            final(self).spec_capacity() == old(self).spec_capacity(),
            final(self).spec_closed() == old(self).spec_closed(),
    {
        let ghost q0 = self.deque@;
        if self.capacity > 0 {
            while self.deque.len() >= self.capacity
                invariant
                    self.capacity > 0,
                    self.capacity == old(self).capacity,
                    self.closed == old(self).closed,
                    q0 == old(self).deque@,
                    self.deque@.len() <= q0.len(),
                    self.deque@ == q0.skip(q0.len() - self.deque@.len()),
                    q0.len() < self.capacity ==> self.deque@ == q0,
                    q0.len() >= self.capacity ==> self.deque@.len() >= self.capacity - 1,
                decreases self.deque@.len(),
            {
                let _ = self.deque.pop_front();
                assert(self.deque@ =~= q0.skip(q0.len() - self.deque@.len()));
            }
        }
        self.deque.push_back(update);
        proof {
            let pushed = q0.push(update);
            if self.capacity > 0 && pushed.len() > self.capacity {
                assert(self.deque@ =~= pushed.skip(pushed.len() - self.capacity));
            } else if self.capacity > 0 {
                assert(self.deque@ =~= pushed);
            } else {
                assert(self.deque@ =~= pushed);
            }
        }
    }

    /// Non-blocking receive: the oldest queued update, if any.
    pub fn try_recv(&mut self) -> (r: Option<DepthUpdate>)
        ensures
            old(self).queued().len() == 0 ==> r is None && final(self).queued() == old(self).queued(),
            old(self).queued().len() > 0 ==> r == Some(old(self).queued()[0]) && final(self).queued()
                == old(self).queued().drop_first(),
            final(self).spec_capacity() == old(self).spec_capacity(),
            final(self).spec_closed() == old(self).spec_closed(),
    {
        let r = self.deque.pop_front();
        proof {
            if old(self).deque@.len() > 0 {
                assert(self.deque@ =~= old(self).deque@.drop_first());
            }
        }
        r
    }

    /// One decision of a blocking receive, taken each time the receiver
    /// holds the queue: the oldest update if there is one; nothing once the
    /// queue is closed and drained, or once a wait has timed out on an empty
    /// open queue; otherwise wait.
    pub fn recv_step(&mut self, timed_out: bool) -> (r: RecvStep)
        ensures
            (r, final(self).queued()) == recv_outcome(old(self).queued(), old(self).spec_closed(), timed_out),
            final(self).spec_capacity() == old(self).spec_capacity(),
            final(self).spec_closed() == old(self).spec_closed(),
    {
        match self.try_recv() {
            Some(ev) => RecvStep::Item(ev),
            None => {
                if self.closed || timed_out {
                    RecvStep::Done
                } else {
                    RecvStep::Wait
                }
            },
        }
    }

    /// Number of queued events.
    pub fn len(&self) -> (n: usize)
        ensures
            n == self.queued().len(),
    {
        self.deque.len()
    }

    pub fn is_empty(&self) -> (b: bool)
        ensures
            b == (self.queued().len() == 0),
    {
        self.len() == 0
    }

    /// The queue bound this receiver was made with (0 = unbounded).
    pub fn capacity(&self) -> (c: usize)
        ensures
            c == self.spec_capacity(),
    {
        self.capacity
    }

    /// Whether the producer has finished feeding this queue.
    pub fn is_closed(&self) -> (b: bool)
        ensures
            b == self.spec_closed(),
    {
        self.closed
    }

    /// Mark the queue closed: the producer will push nothing more.
    pub fn close(&mut self)
        ensures
            final(self).queued() == old(self).queued(),
            final(self).spec_capacity() == old(self).spec_capacity(),
            final(self).spec_closed(),
    {
        self.closed = true;
    }

    /// The connection went down: queue a `Disconnected` update (dropping the
    /// oldest on overflow), then close the queue.
    pub fn close_disconnected(&mut self)
        ensures
            final(self).queued() == keep_newest(
                old(self).queued().push(DepthUpdate::Disconnected),
                old(self).spec_capacity(),
            ),
            final(self).spec_capacity() == old(self).spec_capacity(),
            final(self).spec_closed(),
    {
        self.push_oldest_drop(DepthUpdate::Disconnected);
        self.close();
    }
}

/// Errors from the socket layer.
#[derive(Debug)]
pub enum SocketError {
    /// Cannot connect to the depth server.
    Connect(std::io::Error),
    /// Connection lost mid-session.
    Disconnected(std::io::Error),
    /// Server sent an unparseable frame.
    Protocol(&'static str),
}

#[verifier::external_type_specification]
#[verifier::external_body]
pub struct ExIoError(std::io::Error);

/// Why a buffer of frames is rejected.
pub enum ParseFailure {
    /// A snapshot header announces more entries than the buffer holds.
    TruncatedSnapshot,
    /// The tag is unknown, or the fixed-size frame is cut short.
    UnknownOrTruncated,
}

/// Frame tag `S`: snapshot.
pub const TAG_SNAPSHOT: u8 = 0x53;

/// Frame tag `D`: depth event.
pub const TAG_EVENT: u8 = 0x44;

/// Frame tag `E`: server error.
pub const TAG_ERROR: u8 = 0x45;

/// Little-endian `u16` from its two bytes.
pub open spec fn le_u16(lo: u8, hi: u8) -> u16 {
    (lo as int + 256 * (hi as int)) as u16
}

/// The `count` snapshot entries stored from `start` on, three bytes each.
pub open spec fn snapshot_entries(buf: Seq<u8>, start: int, count: nat) -> Seq<DepthEvent> {
    Seq::new(
        count,
        |i: int|
            DepthEvent {
                key_index: buf[start + 3 * i],
                depth_raw: le_u16(buf[start + 3 * i + 1], buf[start + 3 * i + 2]),
            },
    )
}

/// The frame that starts at `off` and the offset just past it.
pub open spec fn first_frame(buf: Seq<u8>, off: int) -> Result<(FrameModel, int), ParseFailure> {
    let tag = buf[off];
    if tag == TAG_EVENT && off + 4 <= buf.len() {
        Ok(
            (
                FrameModel::Event(
                    DepthEvent { key_index: buf[off + 1], depth_raw: le_u16(buf[off + 2], buf[off + 3]) },
                ),
                off + 4,
            ),
        )
    } else if tag == TAG_SNAPSHOT && off + 2 <= buf.len() {
        let count = buf[off + 1] as nat;
        let end = off + 2 + 3 * count;
        if end > buf.len() {
            Err(ParseFailure::TruncatedSnapshot)
        } else {
            Ok((FrameModel::Snapshot(snapshot_entries(buf, off + 2, count)), end))
        }
    } else if tag == TAG_ERROR && off + 2 <= buf.len() {
        Ok((FrameModel::Error(buf[off + 1]), off + 2))
    } else {
        Err(ParseFailure::UnknownOrTruncated)
    }
}

/// All frames from `off` to the end of `buf`, or the first failure.
pub open spec fn frames_from(buf: Seq<u8>, off: int) -> Result<Seq<FrameModel>, ParseFailure>
    decreases buf.len() - off,
{
    if off < 0 || off >= buf.len() {
        Ok(Seq::empty())
    } else {
        match first_frame(buf, off) {
            Err(e) => Err(e),
            Ok((f, next)) => if next <= off {
                Err(ParseFailure::UnknownOrTruncated)
            } else {
                match frames_from(buf, next) {
                    Ok(rest) => Ok(seq![f] + rest),
                    Err(e) => Err(e),
                }
            },
        }
    }
}

/// What a whole buffer of server frames parses to.
pub open spec fn spec_parse_frames(buf: Seq<u8>) -> Result<Seq<FrameModel>, ParseFailure> {
    frames_from(buf, 0)
}

pub open spec fn frames_view(v: Seq<Frame>) -> Seq<FrameModel> {
    v.map_values(|f: Frame| f@)
}

pub open spec fn prepend_frames(
    done: Seq<FrameModel>,
    rest: Result<Seq<FrameModel>, ParseFailure>,
) -> Result<Seq<FrameModel>, ParseFailure> {
    match rest {
        Ok(r) => Ok(done + r),
        Err(e) => Err(e),
    }
}

/// Whether `res` is what `parse_frames` owes for the model result `spec`.
pub open spec fn parse_result_matches(
    res: Result<Vec<Frame>, SocketError>,
    spec: Result<Seq<FrameModel>, ParseFailure>,
) -> bool {
    match spec {
        Ok(fs) => res matches Ok(v) && frames_view(v@) == fs,
        Err(f) => res matches Err(err) && protocol_error_for(err, f),
    }
}

/// The protocol error reported for each parse failure.
pub open spec fn protocol_error_for(err: SocketError, f: ParseFailure) -> bool {
    match f {
        ParseFailure::TruncatedSnapshot => err matches SocketError::Protocol(m) && m@
            == "truncated snapshot"@,
        ParseFailure::UnknownOrTruncated => err matches SocketError::Protocol(m) && m@
            == "unknown or truncated frame"@,
    }
}

/// Parse a contiguous buffer of server frames into frames.
///
/// A frame header that implies a truncated buffer, or an unknown tag, is a
/// protocol error.
pub fn parse_frames(buf: &[u8]) -> (res: Result<Vec<Frame>, SocketError>)
    ensures
        parse_result_matches(res, spec_parse_frames(buf@)),
{
    let mut frames: Vec<Frame> = Vec::new();
    let mut off: usize = 0;
    let len = buf.len();
    assert(prepend_frames(frames_view(frames@), frames_from(buf@, 0)) == frames_from(buf@, 0)) by {
        match frames_from(buf@, 0) {
            Ok(r) => { assert(frames_view(frames@) + r =~= r); },
            Err(_) => {},
        }
    }
    while off < len
        invariant
            len == buf@.len(),
            off <= len,
            frames_from(buf@, 0) == prepend_frames(frames_view(frames@), frames_from(buf@, off as int)),
        decreases len - off,
    {
        let tag = buf[off];
        let ghost old_frames = frames_view(frames@);
        if tag == TAG_EVENT && len - off >= 4 {
            let ev = DepthEvent {
                key_index: buf[off + 1],
                depth_raw: (buf[off + 2] as u16) + (buf[off + 3] as u16) * 256,
            };
            frames.push(Frame::Event(ev));
            proof {
                let f = FrameModel::Event(ev);
                assert(frames_view(frames@) =~= old_frames.push(f));
                match frames_from(buf@, off + 4) {
                    Ok(r) => { assert(old_frames + (seq![f] + r) =~= old_frames.push(f) + r); },
                    Err(_) => {},
                }
            }
            off = off + 4;
        } else if tag == TAG_SNAPSHOT && len - off >= 2 {
            let count = buf[off + 1] as usize;
            if len - (off + 2) < count * 3 {
                return Err(SocketError::Protocol("truncated snapshot"));
            }
            let start = off + 2;
            let mut entries: Vec<DepthEvent> = Vec::new();
            let mut i: usize = 0;
            while i < count
                invariant
                    len == buf@.len(),
                    start + 3 * count <= len,
                    i <= count,
                    entries@ == snapshot_entries(buf@, start as int, i as nat),
                decreases count - i,
            {
                let base = start + i * 3;
                entries.push(
                    DepthEvent {
                        key_index: buf[base],
                        depth_raw: (buf[base + 1] as u16) + (buf[base + 2] as u16) * 256,
                    },
                );
                i = i + 1;
                assert(entries@ =~= snapshot_entries(buf@, start as int, i as nat));
            }
            let end = start + count * 3;
            let ghost ents = entries@;
            frames.push(Frame::Snapshot(entries));
            proof {
                let f = FrameModel::Snapshot(ents);
                assert(frames_view(frames@) =~= old_frames.push(f));
                match frames_from(buf@, end as int) {
                    Ok(r) => { assert(old_frames + (seq![f] + r) =~= old_frames.push(f) + r); },
                    Err(_) => {},
                }
            }
            off = end;
        } else if tag == TAG_ERROR && len - off >= 2 {
            let code = buf[off + 1];
            frames.push(Frame::Error(code));
            proof {
                let f = FrameModel::Error(code);
                assert(frames_view(frames@) =~= old_frames.push(f));
                match frames_from(buf@, off + 2) {
                    Ok(r) => { assert(old_frames + (seq![f] + r) =~= old_frames.push(f) + r); },
                    Err(_) => {},
                }
            }
            off = off + 2;
        } else {
            return Err(SocketError::Protocol("unknown or truncated frame"));
        }
    }
    assert(frames_view(frames@) + Seq::<FrameModel>::empty() =~= frames_view(frames@));
    Ok(frames)
}

/// Last-known depth of every key reported so far, and whether the
/// connection to the depth server is up.
pub struct DepthState {
    depths: HashMap<u8, u16>,
    connected: bool,
}

/// The depth of a key: its last report, or 0 when it was never reported.
pub open spec fn depth_of(m: Map<u8, u16>, key_index: u8) -> u16 {
    if m.contains_key(key_index) {
        m[key_index]
    } else {
        0
    }
}


/// The reported pairs whose key is below `n`, by ascending key.
pub open spec fn pairs_below(m: Map<u8, u16>, n: nat) -> Seq<(u8, u16)>
    decreases n,
{
    if n == 0 {
        Seq::empty()
    } else {
        let k = (n - 1) as u8;
        let rest = pairs_below(m, (n - 1) as nat);
        if m.contains_key(k) {
            rest.push((k, m[k]))
        } else {
            rest
        }
    }
}

/// The reported pairs above rest whose key is below `n`, by ascending key.
pub open spec fn pressed_below(m: Map<u8, u16>, n: nat) -> Seq<(u8, u16)>
    decreases n,
{
    if n == 0 {
        Seq::empty()
    } else {
        let k = (n - 1) as u8;
        let rest = pressed_below(m, (n - 1) as nat);
        if m.contains_key(k) && m[k] > 0 {
            rest.push((k, m[k]))
        } else {
            rest
        }
    }
}

/// The cache a snapshot leaves behind: every listed key at its depth, later
/// entries for the same key winning.
pub open spec fn entries_map(es: Seq<DepthEvent>) -> Map<u8, u16>
    decreases es.len(),
{
    if es.len() == 0 {
        Map::empty()
    } else {
        entries_map(es.drop_last()).insert(es.last().key_index, es.last().depth_raw)
    }
}

pub open spec fn events_of_pairs(ps: Seq<(u8, u16)>) -> Seq<DepthEvent> {
    ps.map_values(|p: (u8, u16)| DepthEvent { key_index: p.0, depth_raw: p.1 })
}

/// What one frame does to the cache, and the updates it sends subscribers.
pub open spec fn frame_step(m: Map<u8, u16>, f: FrameModel) -> (Map<u8, u16>, Seq<UpdateModel>) {
    match f {
        FrameModel::Snapshot(es) => (entries_map(es), seq![UpdateModel::Snapshot(es)]),
        FrameModel::Event(e) => (m.insert(e.key_index, e.depth_raw), seq![UpdateModel::Event(e)]),
        FrameModel::Error(_) => (m, Seq::empty()),
    }
}

/// The cache after folding `fs` into `m` in order, and all updates sent.
pub open spec fn fold_frames(m: Map<u8, u16>, fs: Seq<FrameModel>) -> (Map<u8, u16>, Seq<UpdateModel>)
    decreases fs.len(),
{
    if fs.len() == 0 {
        (m, Seq::empty())
    } else {
        let prev = fold_frames(m, fs.drop_last());
        let last = frame_step(prev.0, fs.last());
        (last.0, prev.1 + last.1)
    }
}

/// The codes of the server's error frames among `fs`, in order.
pub open spec fn error_codes(fs: Seq<FrameModel>) -> Seq<u8>
    decreases fs.len(),
{
    if fs.len() == 0 {
        Seq::empty()
    } else {
        let rest = error_codes(fs.drop_last());
        match fs.last() {
            FrameModel::Error(c) => rest.push(c),
            _ => rest,
        }
    }
}

/// What handling one chunk yields.
pub struct ChunkOutcome {
    /// The updates to forward to subscribers, in order.
    pub updates: Vec<DepthUpdate>,
    /// The codes of the server's error frames, in order.
    pub server_errors: Vec<u8>,
}

/// How a read from the server ended.
pub enum ReadOutcome {
    /// The read gave bytes (none when the server closed the stream).
    Bytes,
    /// The read timed out or would block.
    TimedOut,
    /// The read failed.
    Failed,
}

/// What the reader does after one read.
pub enum ReaderStep {
    /// Forward these updates and report these server errors, then read on.
    Forward(ChunkOutcome),
    /// Nothing arrived; read on.
    Idle,
    /// Stop reading, with the protocol error that ended the session, if any.
    Stop(Option<SocketError>),
}

/// Whether handling a chunk from cache `m` gave `r` and left cache `m2`:
/// the fold of its frames, or its protocol error with the cache unchanged.
pub open spec fn chunk_result_matches(
    m: Map<u8, u16>,
    chunk: Seq<u8>,
    r: Result<ChunkOutcome, SocketError>,
    m2: Map<u8, u16>,
) -> bool {
    match spec_parse_frames(chunk) {
        Ok(fs) => {
            &&& r matches Ok(o) && updates_view(o.updates@) == fold_frames(m, fs).1
                && o.server_errors@ == error_codes(fs)
            &&& m2 == fold_frames(m, fs).0
        },
        Err(e) => {
            &&& r matches Err(err) && protocol_error_for(err, e)
            &&& m2 == m
        },
    }
}

impl DepthState {
    /// The last-known depths.
    pub closed spec fn depths(&self) -> Map<u8, u16> {
        self.depths@
    }

    /// Whether the connection is marked up.
    pub closed spec fn connected(&self) -> bool {
        self.connected
    }

    /// An empty cache, disconnected.
    pub fn new() -> (st: Self)
        ensures
            st.depths() == Map::<u8, u16>::empty(),
            !st.connected(),
    {
        DepthState { depths: HashMap::new(), connected: false }
    }

    /// Current last-known depth for a key (0 if never reported).
    pub fn get(&self, key_index: u8) -> (d: u16)
        ensures
            d == depth_of(self.depths(), key_index),
    {
        match self.depths.get(&key_index) {
            Some(d) => *d,
            None => 0,
        }
    }

    /// Snapshot of ALL last-known depths (including 0 / at rest), by
    /// ascending key.
    pub fn snapshot_all(&self) -> (r: Vec<(u8, u16)>)
        ensures
            r@ == pairs_below(self.depths(), 256),
    {
        self.collect_pairs(false)
    }

    /// Snapshot of all last-known depths > 0, by ascending key.
    pub fn pressed(&self) -> (r: Vec<(u8, u16)>)
        ensures
            r@ == pressed_below(self.depths(), 256),
    {
        self.collect_pairs(true)
    }

    fn collect_pairs(&self, only_pressed: bool) -> (r: Vec<(u8, u16)>)
        ensures
            r@ == if only_pressed {
                pressed_below(self.depths(), 256)
            } else {
                pairs_below(self.depths(), 256)
            },
    {
        broadcast use vstd::std_specs::hash::group_hash_axioms;
        let mut out: Vec<(u8, u16)> = Vec::new();
        let mut k: u16 = 0;
        while k < 256
            invariant
                k <= 256,
                out@ == if only_pressed {
                    pressed_below(self.depths@, k as nat)
                } else {
                    pairs_below(self.depths@, k as nat)
                },
            decreases 256 - k,
        {
            let key = k as u8;
            match self.depths.get(&key) {
                Some(d) => {
                    if !only_pressed || *d > 0 {
                        out.push((key, *d));
                    }
                },
                None => {},
            }
            k = k + 1;
        }
        out
    }

    /// All last-known depths as one list of events, by ascending key.
    pub fn snapshot_events(&self) -> (r: Vec<DepthEvent>)
        ensures
            r@ == events_of_pairs(pairs_below(self.depths(), 256)),
    {
        let pairs = self.snapshot_all();
        let mut out: Vec<DepthEvent> = Vec::new();
        let mut i: usize = 0;
        while i < pairs.len()
            invariant
                i <= pairs@.len(),
                out@ == events_of_pairs(pairs@.take(i as int)),
            decreases pairs@.len() - i,
        {
            let (key_index, depth_raw) = pairs[i];
            out.push(DepthEvent { key_index, depth_raw });
            assert(pairs@.take(i + 1) =~= pairs@.take(i as int).push(pairs@[i as int]));
            i = i + 1;
        }
        assert(pairs@.take(pairs@.len() as int) =~= pairs@);
        out
    }

    /// Fold one parsed server frame into the cache, and say what subscribers
    /// are to be told: a snapshot replaces the whole cache (keys not in it
    /// are at rest), an event updates one key, an error frame changes
    /// nothing and is not forwarded.
    pub fn apply_frame(&mut self, frame: &Frame) -> (u: Option<DepthUpdate>)
        ensures
            final(self).connected() == old(self).connected(),
            final(self).depths() == frame_step(old(self).depths(), frame@).0,
            match u {
                Some(up) => frame_step(old(self).depths(), frame@).1 == seq![up@],
                None => frame_step(old(self).depths(), frame@).1 == Seq::<UpdateModel>::empty(),
            },
    {
        match frame {
            Frame::Snapshot(entries) => {
                self.clear();
                let mut copy: Vec<DepthEvent> = Vec::new();
                let mut i: usize = 0;
                while i < entries.len()
                    invariant
                        i <= entries@.len(),
                        copy@ == entries@.take(i as int),
                        self.depths() == entries_map(entries@.take(i as int)),
                        self.connected() == old(self).connected(),
                    decreases entries@.len() - i,
                {
                    let e = entries[i];
                    self.apply(e.key_index, e.depth_raw);
                    copy.push(e);
                    assert(entries@.take(i + 1).drop_last() =~= entries@.take(i as int));
                    i = i + 1;
                }
                assert(entries@.take(entries@.len() as int) =~= entries@);
                Some(DepthUpdate::Snapshot(copy))
            },
            Frame::Event(e) => {
                self.apply(e.key_index, e.depth_raw);
                Some(DepthUpdate::Event(*e))
            },
            Frame::Error(_) => None,
        }
    }

    /// Handle one chunk read from the server: parse its frames, fold them
    /// into the cache in order, and collect the updates for subscribers and
    /// the codes of the server's error frames. A chunk that does not parse
    /// changes nothing and yields the protocol error.
    pub fn apply_chunk(&mut self, chunk: &[u8]) -> (r: Result<ChunkOutcome, SocketError>)
        ensures
            final(self).connected() == old(self).connected(),
            chunk_result_matches(old(self).depths(), chunk@, r, final(self).depths()),
    {
        let frames = match parse_frames(chunk) {
            Ok(frames) => frames,
            Err(e) => {
                return Err(e);
            },
        };
        let ghost fs = frames_view(frames@);
        let ghost m0 = self.depths();
        let mut updates: Vec<DepthUpdate> = Vec::new();
        let mut server_errors: Vec<u8> = Vec::new();
        let mut i: usize = 0;
        while i < frames.len()
            invariant
                i <= frames@.len(),
                fs == frames_view(frames@),
                updates_view(updates@) == fold_frames(m0, fs.take(i as int)).1,
                server_errors@ == error_codes(fs.take(i as int)),
                self.depths() == fold_frames(m0, fs.take(i as int)).0,
                self.connected() == old(self).connected(),
            decreases frames@.len() - i,
        {
            let ghost before = updates_view(updates@);
            let u = self.apply_frame(&frames[i]);
            assert(fs.take(i + 1).drop_last() =~= fs.take(i as int));
            assert(fs.take(i + 1).last() == frames@[i as int]@);
            match &frames[i] {
                Frame::Error(code) => server_errors.push(*code),
                _ => {},
            }
            match u {
                Some(up) => {
                    updates.push(up);
                    assert(updates_view(updates@) =~= before + seq![up@]);
                },
                None => {
                    assert(before + Seq::<UpdateModel>::empty() =~= before);
                },
            }
            i = i + 1;
        }
        assert(fs.take(frames@.len() as int) =~= fs);
        Ok(ChunkOutcome { updates, server_errors })
    }

    /// One turn of the reader: what a read from the server gives, and what
    /// the reader does next. Bytes are handled as a chunk and forwarded; no
    /// bytes (the server closed), a chunk that does not parse, or a failed
    /// read stop the reader; a read that timed out changes nothing and the
    /// reader polls again.
    pub fn reader_step(&mut self, outcome: ReadOutcome, chunk: &[u8]) -> (r: ReaderStep)
        ensures
            final(self).connected() == old(self).connected(),
            match outcome {
                ReadOutcome::Bytes => if chunk@.len() == 0 {
                    r == ReaderStep::Stop(None) && final(self).depths() == old(self).depths()
                } else {
                    match r {
                        ReaderStep::Forward(o) => chunk_result_matches(
                            old(self).depths(),
                            chunk@,
                            Ok(o),
                            final(self).depths(),
                        ),
                        ReaderStep::Stop(Some(err)) => chunk_result_matches(
                            old(self).depths(),
                            chunk@,
                            Err(err),
                            final(self).depths(),
                        ),
                        _ => false,
                    }
                },
                ReadOutcome::TimedOut => r == ReaderStep::Idle && final(self).depths() == old(
                    self,
                ).depths(),
                ReadOutcome::Failed => r == ReaderStep::Stop(None) && final(self).depths() == old(
                    self,
                ).depths(),
            },
    {
        match outcome {
            ReadOutcome::Bytes => {
                if chunk.len() == 0 {
                    ReaderStep::Stop(None)
                } else {
                    match self.apply_chunk(chunk) {
                        Ok(o) => ReaderStep::Forward(o),
                        Err(e) => ReaderStep::Stop(Some(e)),
                    }
                }
            },
            ReadOutcome::TimedOut => ReaderStep::Idle,
            ReadOutcome::Failed => ReaderStep::Stop(None),
        }
    }

    pub fn is_connected(&self) -> (b: bool)
        ensures
            b == self.connected(),
    {
        self.connected
    }

    /// Mark the connection up or down.
    pub fn set_connected(&mut self, up: bool)
        ensures
            final(self).connected() == up,
            final(self).depths() == old(self).depths(),
    {
        self.connected = up;
    }

    /// Record a depth report for one key.
    pub fn apply(&mut self, key_index: u8, depth_raw: u16)
        ensures
            final(self).depths() == old(self).depths().insert(key_index, depth_raw),
            final(self).connected() == old(self).connected(),
    {
        broadcast use vstd::std_specs::hash::group_hash_axioms;
        self.depths.insert(key_index, depth_raw);
    }

    /// Forget every reported depth.
    pub fn clear(&mut self)
        ensures
            final(self).depths() == Map::<u8, u16>::empty(),
            final(self).connected() == old(self).connected(),
    {
        broadcast use vstd::std_specs::hash::group_hash_axioms;
        self.depths.clear();
    }
}

/// One call that changes the depth cache.
pub enum CacheOp {
    /// `apply(key_index, depth_raw)`
    Apply(u8, u16),
    /// `clear()`
    Clear,
}

/// The cache a run of calls leaves, by the contracts of `apply` and `clear`.
pub open spec fn run_ops(m: Map<u8, u16>, ops: Seq<CacheOp>) -> Map<u8, u16>
    decreases ops.len(),
{
    if ops.len() == 0 {
        m
    } else {
        let prev = run_ops(m, ops.drop_last());
        match ops.last() {
            CacheOp::Apply(k, d) => prev.insert(k, d),
            CacheOp::Clear => Map::empty(),
        }
    }
}

/// The depth of the last `apply` for key `k` after the last `clear` in
/// `ops`, if there is one.
pub open spec fn last_applied(ops: Seq<CacheOp>, k: u8) -> Option<u16>
    decreases ops.len(),
{
    if ops.len() == 0 {
        None
    } else {
        match ops.last() {
            CacheOp::Clear => None,
            CacheOp::Apply(j, d) => if j == k {
                Some(d)
            } else {
                last_applied(ops.drop_last(), k)
            },
        }
    }
}

proof fn lemma_run_ops_from_empty(ops: Seq<CacheOp>, k: u8)
    ensures
        run_ops(Map::empty(), ops).contains_key(k) <==> last_applied(ops, k) is Some,
        last_applied(ops, k) matches Some(d) ==> run_ops(Map::empty(), ops)[k] == d,
    decreases ops.len(),
{
    if ops.len() > 0 {
        lemma_run_ops_from_empty(ops.drop_last(), k);
    }
}

/// The cache over any run of `apply` and `clear` calls from a new cache:
/// `get` answers the depth of the last `apply` for the key since the last
/// `clear`, or 0 when there is none; `snapshot_all` lists exactly those
/// last depths (zero depths included), one entry per key, by ascending key.
pub proof fn lemma_cache_after_calls(ops: Seq<CacheOp>)
    ensures
        forall|k: u8|
            depth_of(run_ops(Map::empty(), ops), k) == match #[trigger] last_applied(ops, k) {
                Some(d) => d,
                None => 0u16,
            },
        forall|k: u8, d: u16|
            pairs_below(run_ops(Map::empty(), ops), 256).contains((k, d)) <==> last_applied(ops, k)
                == Some(d),
        forall|i: int, j: int|
            0 <= i < j < pairs_below(run_ops(Map::empty(), ops), 256).len() ==> pairs_below(
                run_ops(Map::empty(), ops),
                256,
            )[i].0 < pairs_below(run_ops(Map::empty(), ops), 256)[j].0,
{
    let m = run_ops(Map::empty(), ops);
    lemma_snapshot_lists_reported(m);
    assert forall|k: u8| depth_of(m, k) == match #[trigger] last_applied(ops, k) {
        Some(d) => d,
        None => 0u16,
    } by {
        lemma_run_ops_from_empty(ops, k);
    }
    assert forall|k: u8, d: u16| pairs_below(m, 256).contains((k, d)) <==> last_applied(ops, k)
        == Some(d) by {
        lemma_run_ops_from_empty(ops, k);
    }
}

impl Default for DepthState {
    /// An empty cache, disconnected.
    fn default() -> (st: Self)
        ensures
            st.depths() == Map::<u8, u16>::empty(),
            !st.connected(),
    {
        DepthState::new()
    }
}

proof fn lemma_pairs_below_facts(m: Map<u8, u16>, n: nat)
    requires
        n <= 256,
    ensures
        forall|k: u8, d: u16|
            pairs_below(m, n).contains((k, d)) <==> (k < n && m.contains_key(k) && m[k] == d),
        forall|k: u8, d: u16|
            pressed_below(m, n).contains((k, d)) <==> (k < n && m.contains_key(k) && m[k] == d && d
                > 0),
        forall|i: int, j: int|
            0 <= i < j < pairs_below(m, n).len() ==> pairs_below(m, n)[i].0 < pairs_below(m, n)[j].0,
        forall|i: int, j: int|
            0 <= i < j < pressed_below(m, n).len() ==> pressed_below(m, n)[i].0 < pressed_below(
                m,
                n,
            )[j].0,
        forall|i: int| 0 <= i < pairs_below(m, n).len() ==> pairs_below(m, n)[i].0 < n,
        forall|i: int| 0 <= i < pressed_below(m, n).len() ==> pressed_below(m, n)[i].0 < n,
    decreases n,
{
    if n > 0 {
        let n1 = (n - 1) as nat;
        lemma_pairs_below_facts(m, n1);
        let k = n1 as u8;
        assert(k == n1);
        let a = pairs_below(m, n1);
        let b = pressed_below(m, n1);
        assert forall|kk: u8, d: u16|
            pairs_below(m, n).contains((kk, d)) <==> (kk < n && m.contains_key(kk) && m[kk] == d) by {
            if m.contains_key(k) {
                if pairs_below(m, n).contains((kk, d)) {
                    let i = choose|i: int| 0 <= i < pairs_below(m, n).len() && pairs_below(m, n)[i] == (kk, d);
                    if i < a.len() {
                        assert(a[i] == (kk, d));
                        assert(a.contains((kk, d)));
                    }
                }
                if kk < n && m.contains_key(kk) && m[kk] == d {
                    if kk == k {
                        assert(pairs_below(m, n)[a.len() as int] == (kk, d));
                    } else {
                        assert(a.contains((kk, d)));
                        let i = choose|i: int| 0 <= i < a.len() && a[i] == (kk, d);
                        assert(pairs_below(m, n)[i] == (kk, d));
                    }
                }
            }
        }
        assert forall|kk: u8, d: u16|
            pressed_below(m, n).contains((kk, d)) <==> (kk < n && m.contains_key(kk) && m[kk] == d
                && d > 0) by {
            if m.contains_key(k) && m[k] > 0 {
                if pressed_below(m, n).contains((kk, d)) {
                    let i = choose|i: int| 0 <= i < pressed_below(m, n).len() && pressed_below(m, n)[i] == (kk, d);
                    if i < b.len() {
                        assert(b[i] == (kk, d));
                        assert(b.contains((kk, d)));
                    }
                }
                if kk < n && m.contains_key(kk) && m[kk] == d && d > 0 {
                    if kk == k {
                        assert(pressed_below(m, n)[b.len() as int] == (kk, d));
                    } else {
                        assert(b.contains((kk, d)));
                        let i = choose|i: int| 0 <= i < b.len() && b[i] == (kk, d);
                        assert(pressed_below(m, n)[i] == (kk, d));
                    }
                }
            } else {
                if kk < n && m.contains_key(kk) && m[kk] == d && d > 0 {
                    assert(kk != k);
                }
            }
        }
    }
}

/// A snapshot of the cache lists every reported key exactly once, with its
/// last-known depth, by ascending key; the pressed list does the same for
/// the keys whose depth is above rest.
pub proof fn lemma_snapshot_lists_reported(m: Map<u8, u16>)
    ensures
        forall|k: u8, d: u16|
            pairs_below(m, 256).contains((k, d)) <==> (m.contains_key(k) && m[k] == d),
        forall|k: u8, d: u16|
            pressed_below(m, 256).contains((k, d)) <==> (m.contains_key(k) && m[k] == d && d > 0),
        forall|i: int, j: int|
            0 <= i < j < pairs_below(m, 256).len() ==> pairs_below(m, 256)[i].0 < pairs_below(
                m,
                256,
            )[j].0,
        forall|i: int, j: int|
            0 <= i < j < pressed_below(m, 256).len() ==> pressed_below(m, 256)[i].0
                < pressed_below(m, 256)[j].0,
{
    lemma_pairs_below_facts(m, 256);
}

/// A read gives back the last write: after a report of depth `d` for key
/// `k`, the cache answers `d` for `k` and what it answered before for every
/// other key.
pub proof fn lemma_get_after_apply(m: Map<u8, u16>, k: u8, d: u16, j: u8)
    ensures
        depth_of(m.insert(k, d), j) == if j == k {
            d
        } else {
            depth_of(m, j)
        },
{
}

proof fn lemma_entries_map_absent(es: Seq<DepthEvent>, k: u8)
    requires
        forall|i: int| 0 <= i < es.len() ==> (#[trigger] es[i]).key_index != k,
    ensures
        !entries_map(es).contains_key(k),
    decreases es.len(),
{
    if es.len() > 0 {
        let d = es.drop_last();
        assert forall|i: int| 0 <= i < d.len() implies (#[trigger] d[i]).key_index != k by {
            assert(d[i] == es[i]);
        }
        lemma_entries_map_absent(d, k);
        assert(es[es.len() - 1].key_index != k);
    }
}

proof fn lemma_entries_map_last(es: Seq<DepthEvent>, k: u8, i: int)
    requires
        0 <= i < es.len(),
        es[i].key_index == k,
        forall|j: int| i < j < es.len() ==> (#[trigger] es[j]).key_index != k,
    ensures
        entries_map(es).contains_key(k),
        entries_map(es)[k] == es[i].depth_raw,
    decreases es.len(),
{
    let last = es.len() - 1;
    if i < last {
        let d = es.drop_last();
        assert(d[i] == es[i]);
        assert forall|j: int| i < j < d.len() implies (#[trigger] d[j]).key_index != k by {
            assert(d[j] == es[j]);
        }
        lemma_entries_map_last(d, k, i);
        assert(es[last].key_index != k);
    }
}

/// A snapshot replaces the whole cache: a key it does not list is at rest
/// (depth 0), and a listed key takes the depth of its last entry.
pub proof fn lemma_snapshot_replaces(es: Seq<DepthEvent>, k: u8)
    ensures
        (forall|i: int| 0 <= i < es.len() ==> (#[trigger] es[i]).key_index != k) ==> depth_of(
            entries_map(es),
            k,
        ) == 0,
        forall|i: int|
            0 <= i < es.len() && (#[trigger] es[i]).key_index == k && (forall|j: int|
                i < j < es.len() ==> (#[trigger] es[j]).key_index != k) ==> depth_of(entries_map(es), k)
                == es[i].depth_raw,
{
    if forall|i: int| 0 <= i < es.len() ==> (#[trigger] es[i]).key_index != k {
        lemma_entries_map_absent(es, k);
    }
    assert forall|i: int|
        0 <= i < es.len() && (#[trigger] es[i]).key_index == k && (forall|j: int|
            i < j < es.len() ==> (#[trigger] es[j]).key_index != k) implies depth_of(entries_map(es), k)
        == es[i].depth_raw by {
        lemma_entries_map_last(es, k, i);
    }
}

/// A drop-oldest push keeps the queue within its bound (when it has one),
/// keeps the newest item last, and only ever drops from the front.
pub proof fn lemma_keep_newest(q: Seq<DepthUpdate>, capacity: nat)
    ensures
        capacity > 0 ==> keep_newest(q, capacity).len() <= capacity,
        capacity > 0 ==> keep_newest(q, capacity).len() == if q.len() < capacity {
            q.len()
        } else {
            capacity
        },
        capacity == 0 ==> keep_newest(q, capacity) == q,
        q.len() > 0 ==> keep_newest(q, capacity).len() > 0 && keep_newest(q, capacity).last()
            == q.last(),
        keep_newest(q, capacity) == q.skip(q.len() - keep_newest(q, capacity).len()),
{
    if capacity == 0 || q.len() <= capacity {
        assert(q.skip(0) =~= q);
    }
}

proof fn lemma_first_frame_shift(a: Seq<u8>, b: Seq<u8>, k: int)
    requires
        0 <= k < b.len(),
    ensures
        match first_frame(b, k) {
            Ok((f, next)) => first_frame(a + b, a.len() + k) == Ok::<(FrameModel, int), ParseFailure>(
                (f, a.len() + next),
            ),
            Err(e) => first_frame(a + b, a.len() + k) == Err::<(FrameModel, int), ParseFailure>(e),
        },
{
    let ab = a + b;
    let o = a.len() + k;
    assert(ab[o] == b[k]);
    if b[k] == TAG_EVENT && k + 4 <= b.len() {
        assert(ab[o + 1] == b[k + 1]);
        assert(ab[o + 2] == b[k + 2]);
        assert(ab[o + 3] == b[k + 3]);
    } else if b[k] == TAG_SNAPSHOT && k + 2 <= b.len() {
        assert(ab[o + 1] == b[k + 1]);
        let count = b[k + 1] as nat;
        if k + 2 + 3 * count <= b.len() {
            assert(snapshot_entries(ab, o + 2, count) =~= snapshot_entries(b, k + 2, count));
        }
    } else if b[k] == TAG_ERROR && k + 2 <= b.len() {
        assert(ab[o + 1] == b[k + 1]);
    }
}

proof fn lemma_frames_shift(a: Seq<u8>, b: Seq<u8>, k: int)
    requires
        0 <= k,
    ensures
        frames_from(a + b, a.len() + k) == frames_from(b, k),
    decreases b.len() - k,
{
    if k < b.len() {
        lemma_first_frame_shift(a, b, k);
        match first_frame(b, k) {
            Ok((f, next)) => {
                if next > k {
                    lemma_frames_shift(a, b, next);
                }
            },
            Err(_) => {},
        }
    }
}

proof fn lemma_first_frame_prefix(a: Seq<u8>, b: Seq<u8>, off: int)
    requires
        0 <= off < a.len(),
        first_frame(a, off) is Ok,
    ensures
        first_frame(a + b, off) == first_frame(a, off),
        first_frame(a, off)->Ok_0.1 <= a.len(),
{
    let ab = a + b;
    assert(ab[off] == a[off]);
    if a[off] == TAG_EVENT && off + 4 <= a.len() {
        assert(ab[off + 1] == a[off + 1]);
        assert(ab[off + 2] == a[off + 2]);
        assert(ab[off + 3] == a[off + 3]);
    } else if a[off] == TAG_SNAPSHOT && off + 2 <= a.len() {
        assert(ab[off + 1] == a[off + 1]);
        let count = a[off + 1] as nat;
        assert(snapshot_entries(ab, off + 2, count) =~= snapshot_entries(a, off + 2, count));
    } else if a[off] == TAG_ERROR && off + 2 <= a.len() {
        assert(ab[off + 1] == a[off + 1]);
    }
}

proof fn lemma_frames_concat_from(a: Seq<u8>, b: Seq<u8>, off: int)
    requires
        0 <= off <= a.len(),
        frames_from(a, off) is Ok,
    ensures
        frames_from(a + b, off) == prepend_frames(frames_from(a, off)->Ok_0, frames_from(b, 0)),
    decreases a.len() - off,
{
    if off == a.len() {
        lemma_frames_shift(a, b, 0);
        match frames_from(b, 0) {
            Ok(r) => { assert(Seq::<FrameModel>::empty() + r =~= r); },
            Err(_) => {},
        }
    } else {
        lemma_first_frame_prefix(a, b, off);
        let (f, next) = first_frame(a, off)->Ok_0;
        lemma_frames_concat_from(a, b, next);
        let fa = frames_from(a, next)->Ok_0;
        match frames_from(b, 0) {
            Ok(r) => { assert(seq![f] + (fa + r) =~= (seq![f] + fa) + r); },
            Err(_) => {},
        }
    }
}

/// Frames keep the stream aligned: a buffer that parses cleanly, followed by
/// more bytes, parses to its own frames followed by the frames of the rest
/// (or the rest's failure).
pub proof fn lemma_parse_frames_concat(a: Seq<u8>, b: Seq<u8>)
    requires
        spec_parse_frames(a) is Ok,
    ensures
        spec_parse_frames(a + b) == prepend_frames(spec_parse_frames(a)->Ok_0, spec_parse_frames(b)),
{
    lemma_frames_concat_from(a, b, 0);
}

/// The wire bytes of snapshot entries: key, then depth little-endian.
pub open spec fn encode_entries(es: Seq<DepthEvent>) -> Seq<u8>
    decreases es.len(),
{
    if es.len() == 0 {
        Seq::empty()
    } else {
        let e = es.last();
        encode_entries(es.drop_last()) + seq![
            e.key_index,
            (e.depth_raw % 256) as u8,
            (e.depth_raw / 256) as u8,
        ]
    }
}

/// The wire bytes of one frame.
pub open spec fn encode_frame(f: FrameModel) -> Seq<u8> {
    match f {
        FrameModel::Event(e) => seq![
            TAG_EVENT,
            e.key_index,
            (e.depth_raw % 256) as u8,
            (e.depth_raw / 256) as u8,
        ],
        FrameModel::Snapshot(es) => seq![TAG_SNAPSHOT, es.len() as u8] + encode_entries(es),
        FrameModel::Error(c) => seq![TAG_ERROR, c],
    }
}

/// The wire bytes of a sequence of frames, back to back.
pub open spec fn encode_frames(fs: Seq<FrameModel>) -> Seq<u8>
    decreases fs.len(),
{
    if fs.len() == 0 {
        Seq::empty()
    } else {
        encode_frames(fs.drop_last()) + encode_frame(fs.last())
    }
}

/// A frame the wire format can carry: a snapshot has at most 255 entries.
pub open spec fn encodable(f: FrameModel) -> bool {
    match f {
        FrameModel::Snapshot(es) => es.len() <= 255,
        _ => true,
    }
}

proof fn lemma_le_u16_split(d: u16)
    ensures
        le_u16((d % 256) as u8, (d / 256) as u8) == d,
{
}

proof fn lemma_encode_entries(es: Seq<DepthEvent>)
    ensures
        encode_entries(es).len() == 3 * es.len(),
        forall|i: int|
            0 <= i < es.len() ==> {
                &&& #[trigger] encode_entries(es)[3 * i] == es[i].key_index
                &&& encode_entries(es)[3 * i + 1] == (es[i].depth_raw % 256) as u8
                &&& encode_entries(es)[3 * i + 2] == (es[i].depth_raw / 256) as u8
            },
    decreases es.len(),
{
    if es.len() > 0 {
        let d = es.drop_last();
        lemma_encode_entries(d);
        assert forall|i: int| 0 <= i < es.len() implies {
            &&& #[trigger] encode_entries(es)[3 * i] == es[i].key_index
            &&& encode_entries(es)[3 * i + 1] == (es[i].depth_raw % 256) as u8
            &&& encode_entries(es)[3 * i + 2] == (es[i].depth_raw / 256) as u8
        } by {
            if i < d.len() {
                assert(d[i] == es[i]);
                assert(encode_entries(d)[3 * i] == es[i].key_index);
            }
        }
    }
}

proof fn lemma_parse_one_frame(f: FrameModel)
    requires
        encodable(f),
    ensures
        spec_parse_frames(encode_frame(f)) == Ok::<Seq<FrameModel>, ParseFailure>(seq![f]),
{
    let b = encode_frame(f);
    match f {
        FrameModel::Event(e) => {
            lemma_le_u16_split(e.depth_raw);
            assert(first_frame(b, 0) == Ok::<(FrameModel, int), ParseFailure>((f, 4)));
        },
        FrameModel::Snapshot(es) => {
            lemma_encode_entries(es);
            let n = es.len();
            assert(b[1] as nat == n);
            assert forall|i: int| 0 <= i < n implies #[trigger] snapshot_entries(b, 2, n)[i] == es[i] by {
                assert(b[2 + 3 * i] == encode_entries(es)[3 * i]);
                assert(b[2 + 3 * i + 1] == encode_entries(es)[3 * i + 1]);
                assert(b[2 + 3 * i + 2] == encode_entries(es)[3 * i + 2]);
                lemma_le_u16_split(es[i].depth_raw);
            }
            assert(snapshot_entries(b, 2, n) =~= es);
            assert(first_frame(b, 0) == Ok::<(FrameModel, int), ParseFailure>((f, b.len() as int)));
        },
        FrameModel::Error(c) => {
            assert(first_frame(b, 0) == Ok::<(FrameModel, int), ParseFailure>((f, 2)));
        },
    }
    assert(frames_from(b, b.len() as int) == Ok::<Seq<FrameModel>, ParseFailure>(Seq::empty()));
    assert(seq![f] + Seq::<FrameModel>::empty() =~= seq![f]);
}

/// Decoding inverts the wire format: frames written back to back, as the
/// server sends them, parse to exactly those frames.
pub proof fn lemma_parse_encoded_frames(fs: Seq<FrameModel>)
    requires
        forall|i: int| 0 <= i < fs.len() ==> encodable(#[trigger] fs[i]),
    ensures
        spec_parse_frames(encode_frames(fs)) == Ok::<Seq<FrameModel>, ParseFailure>(fs),
    decreases fs.len(),
{
    if fs.len() == 0 {
        assert(frames_from(Seq::<u8>::empty(), 0) == Ok::<Seq<FrameModel>, ParseFailure>(Seq::empty()));
        assert(fs =~= Seq::<FrameModel>::empty());
    } else {
        let d = fs.drop_last();
        assert forall|i: int| 0 <= i < d.len() implies encodable(#[trigger] d[i]) by {
            assert(d[i] == fs[i]);
        }
        lemma_parse_encoded_frames(d);
        assert(encodable(fs[fs.len() - 1]));
        lemma_parse_one_frame(fs.last());
        lemma_parse_frames_concat(encode_frames(d), encode_frame(fs.last()));
        assert(d + seq![fs.last()] =~= fs);
    }
}

/// Folding a frame into the cache: a snapshot replaces the whole cache,
/// whatever it held (a key it does not list is at rest, a listed key takes
/// the depth of its last entry); an event sets its key and leaves the others;
/// an error frame changes nothing. Snapshots and events are forwarded as
/// they are, error frames are not.
pub proof fn lemma_frame_step_effects(m: Map<u8, u16>, f: FrameModel, k: u8)
    ensures
        match f {
            FrameModel::Snapshot(es) => {
                &&& (forall|i: int| 0 <= i < es.len() ==> (#[trigger] es[i]).key_index != k) ==> !frame_step(
                    m,
                    f,
                ).0.contains_key(k) && depth_of(frame_step(m, f).0, k) == 0
                &&& forall|i: int|
                    0 <= i < es.len() && (#[trigger] es[i]).key_index == k && (forall|j: int|
                        i < j < es.len() ==> (#[trigger] es[j]).key_index != k) ==> depth_of(
                        frame_step(m, f).0,
                        k,
                    ) == es[i].depth_raw
                &&& frame_step(m, f).1 == seq![UpdateModel::Snapshot(es)]
            },
            FrameModel::Event(e) => {
                &&& depth_of(frame_step(m, f).0, k) == if k == e.key_index {
                    e.depth_raw
                } else {
                    depth_of(m, k)
                }
                &&& frame_step(m, f).1 == seq![UpdateModel::Event(e)]
            },
            FrameModel::Error(_) => {
                &&& frame_step(m, f).0 == m
                &&& frame_step(m, f).1.len() == 0
            },
        },
{
    match f {
        FrameModel::Snapshot(es) => {
            if forall|i: int| 0 <= i < es.len() ==> (#[trigger] es[i]).key_index != k {
                lemma_entries_map_absent(es, k);
            }
            lemma_snapshot_replaces(es, k);
        },
        _ => {},
    }
}

/// A receive step never waits on, nor loses from, a non-empty queue: it
/// hands out the oldest update and keeps the rest, open or closed, timed out
/// or not. On an empty queue it changes nothing, and it waits only when the
/// queue is open and the wait has not timed out.
pub proof fn lemma_recv_outcome(q: Seq<DepthUpdate>, closed: bool, timed_out: bool)
    ensures
        q.len() > 0 ==> recv_outcome(q, closed, timed_out).0 == RecvStep::Item(q[0]) && seq![q[0]]
            + recv_outcome(q, closed, timed_out).1 == q,
        q.len() == 0 ==> recv_outcome(q, closed, timed_out).1 == q,
        recv_outcome(q, closed, timed_out).0 is Wait <==> (q.len() == 0 && !closed && !timed_out),
        recv_outcome(q, closed, timed_out).0 is Done <==> (q.len() == 0 && (closed || timed_out)),
{
    if q.len() > 0 {
        assert(seq![q[0]] + q.drop_first() =~= q);
    }
}

/// The server's error code, for an error frame.
pub open spec fn error_code_of(f: FrameModel) -> Option<u8> {
    match f {
        FrameModel::Error(c) => Some(c),
        _ => None,
    }
}

/// The update a frame forwards to subscribers, if any.
pub open spec fn update_of(f: FrameModel) -> Option<UpdateModel> {
    match f {
        FrameModel::Snapshot(es) => Some(UpdateModel::Snapshot(es)),
        FrameModel::Event(e) => Some(UpdateModel::Event(e)),
        FrameModel::Error(_) => None,
    }
}

/// The server errors reported for a run of frames are the codes of its
/// error frames, in order; the updates forwarded are its snapshots and
/// events, in order.
pub proof fn lemma_chunk_reports_in_order(m: Map<u8, u16>, fs: Seq<FrameModel>)
    ensures
        error_codes(fs) == fs.filter_map(|f: FrameModel| error_code_of(f)),
        fold_frames(m, fs).1 == fs.filter_map(|f: FrameModel| update_of(f)),
    decreases fs.len(),
{
    if fs.len() > 0 {
        lemma_chunk_reports_in_order(m, fs.drop_last());
        let d = fs.drop_last();
        match fs.last() {
            FrameModel::Error(c) => {
                assert(error_codes(d).push(c) =~= d.filter_map(|f: FrameModel| error_code_of(f)) + seq![c]);
                assert(fold_frames(m, d).1 + Seq::<UpdateModel>::empty() =~= fold_frames(m, d).1);
            },
            FrameModel::Snapshot(es) => {
                assert(fold_frames(m, fs).1 =~= d.filter_map(|f: FrameModel| update_of(f)) + seq![UpdateModel::Snapshot(es)]);
            },
            FrameModel::Event(e) => {
                assert(fold_frames(m, fs).1 =~= d.filter_map(|f: FrameModel| update_of(f)) + seq![UpdateModel::Event(e)]);
            },
        }
    }
}

/// Folding frames one run after another is folding them all at once: the
/// cache left by the first run is where the second starts, and the updates
/// follow each other; a single frame folds as one step.
pub proof fn lemma_fold_frames_compose(m: Map<u8, u16>, a: Seq<FrameModel>, b: Seq<FrameModel>)
    ensures
        fold_frames(m, a + b).0 == fold_frames(fold_frames(m, a).0, b).0,
        fold_frames(m, a + b).1 == fold_frames(m, a).1 + fold_frames(fold_frames(m, a).0, b).1,
        forall|f: FrameModel| #[trigger] fold_frames(m, seq![f]) == frame_step(m, f),
    decreases b.len(),
{
    assert forall|f: FrameModel| #[trigger] fold_frames(m, seq![f]) == frame_step(m, f) by {
        let one = seq![f];
        assert(one.drop_last() =~= Seq::<FrameModel>::empty());
        assert(one.last() == f);
        assert(fold_frames(m, one.drop_last()) == (m, Seq::<UpdateModel>::empty()));
        assert(Seq::<UpdateModel>::empty() + frame_step(m, f).1 =~= frame_step(m, f).1);
        assert(fold_frames(m, one).0 == frame_step(m, f).0);
        assert(fold_frames(m, one).1 =~= frame_step(m, f).1);
    }
    if b.len() == 0 {
        assert(a + b =~= a);
        assert(fold_frames(m, a).1 + Seq::<UpdateModel>::empty() =~= fold_frames(m, a).1);
    } else {
        lemma_fold_frames_compose(m, a, b.drop_last());
        assert((a + b).drop_last() =~= a + b.drop_last());
        let m1 = fold_frames(m, a).0;
        let u1 = fold_frames(m, a).1;
        let mid = fold_frames(m1, b.drop_last());
        let st = frame_step(mid.0, b.last());
        assert((a + b).last() == b.last());
        assert(u1 + (mid.1 + st.1) =~= (u1 + mid.1) + st.1);
    }
}

} // verus!
