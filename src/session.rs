//! The decisions of one protocol session: its bounded outbound queue, which
//! of its two loops are alive, what `restart` must spawn, what the write loop
//! does next and where the read loop sends an inbound frame.
//!
//! The loops themselves (tasks, locks, the stream) live with the caller, who
//! performs each returned action and reports back what happened.
use vstd::prelude::*;
use crate::registry::Registry;
use crate::frame::{FrameError, MAX_FRAME_LEN, decode_spec, frame_of, lemma_truncated_frame};

verus! {

/// Capacity of the outbound queue of a session.
pub const QUEUE_CAPACITY: usize = 1000;

/// Why a payload was not accepted for sending.
#[derive(Debug, Clone, Copy, PartialEq, Eq, Structural)]
pub enum SessionError {
    /// No write loop is active, or the session was shut down.
    NotRunning,
    /// The outbound queue is at its capacity.
    QueueFull,
}

/// Where a session stands in its life.
#[derive(Debug, Clone, Copy, PartialEq, Eq, Structural)]
pub enum Lifecycle {
    /// No loop was ever started.
    Uninitialized,
    /// Both loops are alive.
    Running,
    /// One loop has ended and the other is still alive.
    Degraded,
    /// Both loops have ended.
    Stopped,
}

/// The loops that the caller must start after a `restart`.
#[derive(Debug, Clone, Copy, PartialEq, Eq, Structural)]
pub struct Spawn {
    pub read: bool,
    pub write: bool,
}

/// What the write loop does next.
#[derive(Debug)]
pub enum WriteStep {
    /// Send this payload as one frame, then ask again.
    Send(Vec<u8>),
    /// Nothing is queued: wait until something is enqueued or the session shuts down.
    Wait,
    /// The queue is closed and drained: the write loop ends.
    Exit,
}

/// What the read loop got from the stream.
#[derive(Debug)]
pub enum ReadEvent {
    /// Receiving failed: the stream broke, ended, or sent a bad frame header.
    Failed,
    /// A frame arrived but no message kind could be read from it.
    Undecodable,
    /// A frame of the given kind arrived, with its raw bytes.
    Decoded(String, Vec<u8>),
}

/// What the read loop does with what it got.
#[derive(Debug)]
pub enum ReadStep {
    /// The read loop ends.
    Stop,
    /// The frame is dropped and the loop reads on.
    Skip,
    /// No handler is registered for the frame's kind: it is dropped and the loop reads on.
    Unrouted,
    /// Hand these bytes to the handler of the frame's kind, then read on.
    Dispatch(Vec<u8>),
}

/// A write step as the model sees it.
pub enum WriteAction {
    Send(Seq<u8>),
    Wait,
    Exit,
}

/// A read event as the model sees it.
pub enum Inbound {
    Failed,
    Undecodable,
    Decoded(Seq<char>, Seq<u8>),
}

/// A read step as the model sees it.
pub enum ReadAction {
    Stop,
    Skip,
    Unrouted,
    Dispatch(Seq<u8>),
}

impl WriteStep {
    pub open spec fn view(&self) -> WriteAction {
        match self {
            WriteStep::Send(p) => WriteAction::Send(p@),
            WriteStep::Wait => WriteAction::Wait,
            WriteStep::Exit => WriteAction::Exit,
        }
    }
}

impl ReadEvent {
    pub open spec fn view(&self) -> Inbound {
        match self {
            ReadEvent::Failed => Inbound::Failed,
            ReadEvent::Undecodable => Inbound::Undecodable,
            ReadEvent::Decoded(k, p) => Inbound::Decoded(k@, p@),
        }
    }
}

impl ReadStep {
    pub open spec fn view(&self) -> ReadAction {
        match self {
            ReadStep::Stop => ReadAction::Stop,
            ReadStep::Skip => ReadAction::Skip,
            ReadStep::Unrouted => ReadAction::Unrouted,
            ReadStep::Dispatch(p) => ReadAction::Dispatch(p@),
        }
    }
}

/// The state of a session as the model sees it.
pub struct SessionView {
    /// Payloads waiting for the write loop, oldest first.
    pub queue: Seq<Seq<u8>>,
    /// The most payloads the queue may hold.
    pub capacity: nat,
    /// Whether producers may enqueue (the queue is open).
    pub accepting: bool,
    pub read_active: bool,
    pub write_active: bool,
    /// Whether the loops were ever started.
    pub started: bool,
}

/// Where a session in state `v` stands in its life.
pub open spec fn lifecycle_spec(v: SessionView) -> Lifecycle {
    if !v.started {
        Lifecycle::Uninitialized
    } else if v.read_active && v.write_active {
        Lifecycle::Running
    } else if !v.read_active && !v.write_active {
        Lifecycle::Stopped
    } else {
        Lifecycle::Degraded
    }
}

/// Enqueueing `p`: refused with `NotRunning` when the queue is closed or no
/// write loop is alive, with `QueueFull` when it is at capacity; otherwise `p`
/// goes to the back of the queue.
pub open spec fn enqueue_spec(v: SessionView, p: Seq<u8>) -> (SessionView, Result<(), SessionError>) {
    if !v.accepting || !v.write_active {
        (v, Err(SessionError::NotRunning))
    } else if v.queue.len() >= v.capacity {
        (v, Err(SessionError::QueueFull))
    } else {
        (SessionView { queue: v.queue.push(p), ..v }, Ok(()))
    }
}

/// One write-loop step: the oldest queued payload is taken and sent; with an
/// empty queue the loop waits while the queue is open and ends once it is closed.
pub open spec fn write_spec(v: SessionView) -> (SessionView, WriteAction) {
    if v.queue.len() > 0 {
        (SessionView { queue: v.queue.drop_first(), ..v }, WriteAction::Send(v.queue[0]))
    } else if v.accepting {
        (v, WriteAction::Wait)
    } else {
        (SessionView { write_active: false, ..v }, WriteAction::Exit)
    }
}

/// Where an inbound event goes, given the registered kinds: a failed receive
/// ends the loop, an undecodable frame is skipped, a frame of a registered
/// kind goes to its handler with its raw bytes, any other is dropped.
pub open spec fn route_spec<H>(e: Inbound, handlers: Map<Seq<char>, H>) -> ReadAction {
    match e {
        Inbound::Failed => ReadAction::Stop,
        Inbound::Undecodable => ReadAction::Skip,
        Inbound::Decoded(k, p) => if handlers.contains_key(k) {
            ReadAction::Dispatch(p)
        } else {
            ReadAction::Unrouted
        },
    }
}

/// One read-loop step: the loop stays alive unless the step is `Stop`.
pub open spec fn read_spec<H>(v: SessionView, e: Inbound, handlers: Map<Seq<char>, H>) -> (SessionView, ReadAction) {
    let a = route_spec(e, handlers);
    if a is Stop {
        (SessionView { read_active: false, ..v }, a)
    } else {
        (v, a)
    }
}

/// Restarting: a no-op while the session runs with its queue open; otherwise
/// every dead loop is spawned again, the queue is opened, and a fresh empty
/// queue replaces the old one when the write loop had ended.
pub open spec fn restart_spec(v: SessionView) -> (SessionView, Spawn) {
    if v.accepting && v.read_active && v.write_active {
        (v, Spawn { read: false, write: false })
    } else {
        (
            SessionView {
                queue: if v.write_active { v.queue } else { Seq::empty() },
                accepting: true,
                read_active: true,
                write_active: true,
                started: true,
                ..v
            },
            Spawn { read: !v.read_active, write: !v.write_active },
        )
    }
}

/// Shutting down: the queue is closed to producers; what it holds is still sent.
pub open spec fn shutdown_spec(v: SessionView) -> SessionView {
    SessionView { accepting: false, ..v }
}

/// The state of one session.
pub struct Session {
    queue: std::collections::VecDeque<Vec<u8>>,
    capacity: usize,
    accepting: bool,
    read_active: bool,
    write_active: bool,
    started: bool,
}

impl Session {
    pub closed spec fn view(&self) -> SessionView {
        SessionView {
            queue: self.queue@.map_values(|p: Vec<u8>| p@),
            capacity: self.capacity as nat,
            accepting: self.accepting,
            read_active: self.read_active,
            write_active: self.write_active,
            started: self.started,
        }
    }

    /// The queue never holds more than its capacity; it is open only while a
    /// write loop is alive; nothing runs before the first start.
    pub open spec fn wf(&self) -> bool {
        &&& self@.queue.len() <= self@.capacity
        &&& self@.accepting ==> self@.write_active
        &&& !self@.started ==> !self@.read_active && !self@.write_active
    }

    /// A session whose loops have not been started, with a queue of `capacity` payloads.
    pub fn new(capacity: usize) -> (r: Self)
        ensures
            r.wf(),
            r@.queue == Seq::<Seq<u8>>::empty(),
            r@.capacity == capacity as nat,
            !r@.accepting,
            !r@.read_active,
            !r@.write_active,
            !r@.started,
    {
        let r = Session {
            queue: std::collections::VecDeque::new(),
            capacity,
            accepting: false,
            read_active: false,
            write_active: false,
            started: false,
        };
        assert(r@.queue =~= Seq::<Seq<u8>>::empty());
        r
    }

    /// Where the session stands in its life.
    pub fn lifecycle(&self) -> (r: Lifecycle)
        ensures
            r == lifecycle_spec(self@),
    {
        if !self.started {
            Lifecycle::Uninitialized
        } else if self.read_active && self.write_active {
            Lifecycle::Running
        } else if !self.read_active && !self.write_active {
            Lifecycle::Stopped
        } else {
            Lifecycle::Degraded
        }
    }

    /// Number of payloads waiting to be sent.
    pub fn queued(&self) -> (r: usize)
        ensures
            r as nat == self@.queue.len(),
    {
        self.queue.len()
    }

    /// Hands `payload` to the write loop without blocking.
    pub fn enqueue(&mut self, payload: Vec<u8>) -> (r: Result<(), SessionError>)
        requires
            old(self).wf(),
        ensures
            final(self).wf(),
            (final(self)@, r) == enqueue_spec(old(self)@, payload@),
    {
        if !self.accepting || !self.write_active {
            return Err(SessionError::NotRunning);
        }
        if self.queue.len() >= self.capacity {
            return Err(SessionError::QueueFull);
        }
        self.queue.push_back(payload);
        proof {
            assert(self@.queue =~= old(self)@.queue.push(payload@));
        }
        Ok(())
    }

    /// Decides the write loop's next step and takes the payload it sends off the queue.
    pub fn next_outbound(&mut self) -> (r: WriteStep)
        requires
            old(self).wf(),
        ensures
            final(self).wf(),
            (final(self)@, r@) == write_spec(old(self)@),
    {
        match self.queue.pop_front() {
            Some(p) => {
                proof {
                    assert(self@.queue =~= old(self)@.queue.drop_first());
                }
                WriteStep::Send(p)
            },
            None => {
                if self.accepting {
                    WriteStep::Wait
                } else {
                    self.write_active = false;
                    WriteStep::Exit
                }
            },
        }
    }

    /// Decides where the read loop sends what it got, using the handlers
    /// registered at this moment.
    pub fn read_step<H>(&mut self, event: ReadEvent, handlers: &Registry<H>) -> (r: ReadStep)
        requires
            old(self).wf(),
            handlers.wf(),
        ensures
            final(self).wf(),
            (final(self)@, r@) == read_spec(old(self)@, event@, handlers@),
    {
        match event {
            ReadEvent::Failed => {
                self.read_active = false;
                ReadStep::Stop
            },
            ReadEvent::Undecodable => ReadStep::Skip,
            ReadEvent::Decoded(kind, payload) => {
                if handlers.contains(&kind) {
                    ReadStep::Dispatch(payload)
                } else {
                    ReadStep::Unrouted
                }
            },
        }
    }

    /// Brings both loops back: says which ones the caller must spawn, never
    /// one that is still alive.
    pub fn restart(&mut self) -> (r: Spawn)
        requires
            old(self).wf(),
        ensures
            final(self).wf(),
            (final(self)@, r) == restart_spec(old(self)@),
    {
        if self.accepting && self.read_active && self.write_active {
            return Spawn { read: false, write: false };
        }
        let r = Spawn { read: !self.read_active, write: !self.write_active };
        if !self.write_active {
            self.queue = std::collections::VecDeque::new();
        }
        self.accepting = true;
        self.read_active = true;
        self.write_active = true;
        self.started = true;
        proof {
            if !old(self)@.write_active {
                assert(self@.queue =~= Seq::<Seq<u8>>::empty());
            }
        }
        r
    }

    /// Closes the queue to producers; the write loop sends what is left, then ends.
    pub fn shutdown(&mut self)
        requires
            old(self).wf(),
        ensures
            final(self).wf(),
            final(self)@ == shutdown_spec(old(self)@),
    {
        self.accepting = false;
    }
}

/// The payloads that the next `n` write-loop steps send from state `v`, in
/// the order they go out (counting stops at the first step that sends nothing).
pub open spec fn sent_by(v: SessionView, n: nat) -> Seq<Seq<u8>>
    decreases n,
{
    if n == 0 {
        Seq::empty()
    } else {
        match write_spec(v).1 {
            WriteAction::Send(p) => seq![p] + sent_by(write_spec(v).0, (n - 1) as nat),
            _ => Seq::empty(),
        }
    }
}

/// The write loop sends the queue in the order it was filled: as many steps
/// as there are queued payloads send exactly those payloads, oldest first.
pub proof fn lemma_fifo(v: SessionView)
    ensures
        sent_by(v, v.queue.len()) == v.queue,
    decreases v.queue.len(),
{
    if v.queue.len() > 0 {
        let v2 = write_spec(v).0;
        lemma_fifo(v2);
        assert(v.queue =~= seq![v.queue[0]] + v2.queue);
    } else {
        assert(v.queue =~= Seq::<Seq<u8>>::empty());
    }
}

/// Two payloads accepted one after the other leave the write loop in that
/// order, after everything that was queued before them.
pub proof fn lemma_ordering(v: SessionView, m1: Seq<u8>, m2: Seq<u8>)
    requires
        enqueue_spec(v, m1).1 is Ok,
        enqueue_spec(enqueue_spec(v, m1).0, m2).1 is Ok,
    ensures
        ({
            let v2 = enqueue_spec(enqueue_spec(v, m1).0, m2).0;
            &&& v2.queue == v.queue.push(m1).push(m2)
            &&& sent_by(v2, v.queue.len() + 2) == v.queue + seq![m1, m2]
        }),
{
    let v2 = enqueue_spec(enqueue_spec(v, m1).0, m2).0;
    lemma_fifo(v2);
    assert(v.queue.push(m1).push(m2) =~= v.queue + seq![m1, m2]);
}

/// Enqueueing into a running session whose queue is at capacity fails with
/// `QueueFull` at once and leaves the session as it was; no enqueue ever
/// grows the queue past its capacity.
pub proof fn lemma_backpressure(v: SessionView, p: Seq<u8>)
    requires
        v.queue.len() <= v.capacity,
    ensures
        enqueue_spec(v, p).0.queue.len() <= v.capacity,
        v.accepting && v.write_active && v.queue.len() == v.capacity ==> enqueue_spec(v, p) == (
        v, Err::<(), SessionError>(SessionError::QueueFull)),
{
}

/// A frame of a registered kind is handed, once and with its raw bytes, to
/// the handler of that kind; a frame of an unregistered kind reaches no
/// handler. Neither ends the read loop.
pub proof fn lemma_routing<H>(
    v: SessionView,
    handlers: Map<Seq<char>, H>,
    kind: Seq<char>,
    handler: H,
    other: Seq<char>,
    payload: Seq<u8>,
)
    requires
        !handlers.contains_key(other),
        other != kind,
    ensures
        read_spec(v, Inbound::Decoded(kind, payload), handlers.insert(kind, handler)) == (
        v, ReadAction::Dispatch(payload)),
        read_spec(v, Inbound::Decoded(other, payload), handlers.insert(kind, handler)) == (
        v, ReadAction::Unrouted),
{
}

/// Whatever a handler does when it is invoked, the read loop goes on: the
/// dispatch step leaves the session as it was, and the next frame of a
/// registered kind is dispatched in turn.
pub proof fn lemma_fault_isolation<H>(
    v: SessionView,
    handlers: Map<Seq<char>, H>,
    first_kind: Seq<char>,
    first: Seq<u8>,
    second_kind: Seq<char>,
    second: Seq<u8>,
)
    requires
        handlers.contains_key(first_kind),
        handlers.contains_key(second_kind),
    ensures
        read_spec(v, Inbound::Decoded(first_kind, first), handlers) == (v, ReadAction::Dispatch(first)),
        read_spec(read_spec(v, Inbound::Decoded(first_kind, first), handlers).0, Inbound::Decoded(second_kind, second), handlers)
            == (v, ReadAction::Dispatch(second)),
{
}

/// A stream that ends after a frame's length prefix but before its whole
/// payload yields `Truncated`; the read loop, told of the failure, stops and
/// is not restarted by itself.
pub proof fn lemma_truncated_stream<H>(
    v: SessionView,
    handlers: Map<Seq<char>, H>,
    p: Seq<u8>,
    k: int,
)
    requires
        p.len() <= MAX_FRAME_LEN,
        4 <= k < 4 + p.len(),
    ensures
        decode_spec(frame_of(p).take(k)) == Err::<Seq<u8>, FrameError>(FrameError::Truncated),
        read_spec(v, Inbound::Failed, handlers) == (
        SessionView { read_active: false, ..v }, ReadAction::Stop),
        !read_spec(v, Inbound::Failed, handlers).0.read_active,
{
    lemma_truncated_frame(p, k);
}

/// Restarting never spawns a loop that is still alive; restarting a running
/// session changes nothing, and a second restart right after a first spawns
/// nothing and keeps the queue, so no frame is taken twice.
pub proof fn lemma_restart_idempotent(v: SessionView)
    requires
        v.accepting ==> v.write_active,
    ensures
        restart_spec(v).1.read ==> !v.read_active,
        restart_spec(v).1.write ==> !v.write_active,
        v.accepting && v.read_active && v.write_active ==> restart_spec(v) == (
        v, Spawn { read: false, write: false }),
        restart_spec(restart_spec(v).0) == (restart_spec(v).0, Spawn { read: false, write: false }),
        restart_spec(v).0.write_active && restart_spec(v).0.read_active,
{
}

} // verus!
