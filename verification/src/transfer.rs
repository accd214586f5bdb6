//! Register operations as state machines over a byte transport.
//!
//! An operation never touches the transport. It names the next thing to do
//! on it, an [`Action`], and is told what the transport answered, an
//! [`Event`]. Whoever owns the transport performs the action, reports the
//! event, and repeats until the operation is done. A request frame is
//! offered strictly in order, one byte at a time: a transport that would
//! block is offered the same byte again, and a transport that faults ends
//! the operation at once, with nothing sent again and nothing sent after.
//! The bytes of a reply are gathered under the same discipline.

use vstd::prelude::*;
use crate::errors::TmcError;
use crate::packet::{
    build_read_packet,
    build_write_packet,
    read_request_frame,
    write_frame,
};
use crate::reply::{check_reply, reply_outcome};

verus! {

/// What the transport answered to the action last asked of it.
#[derive(Debug, Clone, Copy, PartialEq, Eq, Structural)]
pub enum Event {
    /// The byte offered was accepted.
    Sent,
    /// One byte arrived.
    Received(u8),
    /// The transport cannot proceed right now; the action is to be tried
    /// again.
    WouldBlock,
    /// The transport failed for good.
    Fault,
}

/// What an operation needs done next.
#[derive(Debug, PartialEq, Eq)]
pub enum Action<T> {
    /// Offer this byte to the transport.
    Send(u8),
    /// Take one byte from the transport.
    Receive,
    /// Nothing more: the operation has ended with this result.
    Done(Result<T, TmcError>),
}

/// `count` bytes accepted one after another.
pub open spec fn sent_events(count: nat) -> Seq<Event> {
    Seq::new(count, |i: int| Event::Sent)
}

/// The arrival of `bytes`, one after another.
pub open spec fn received_events(bytes: Seq<u8>) -> Seq<Event> {
    Seq::new(bytes.len(), |i: int| Event::Received(bytes[i]))
}

/// The events that remain when every would-block is left out.
pub open spec fn without_would_block(events: Seq<Event>) -> Seq<Event> {
    events.filter(|event: Event| event != Event::WouldBlock)
}

/// Leaving out the would-blocks of a sequence that ends in `events.last()`
/// leaves those of the rest, followed by the last event unless that is a
/// would-block itself.
pub proof fn lemma_without_would_block_unfold(events: Seq<Event>)
    requires
        events.len() > 0,
    ensures
        events.last() == Event::WouldBlock ==> without_would_block(events) == without_would_block(
            events.drop_last(),
        ),
        events.last() != Event::WouldBlock ==> without_would_block(events) == without_would_block(
            events.drop_last(),
        ).push(events.last()),
{
    reveal(Seq::filter);
}

/// A register write in progress: the frame, how many of its bytes the
/// transport has accepted, and whether the transport has faulted.
pub struct WriteOpView {
    pub frame: Seq<u8>,
    pub sent: nat,
    pub faulted: bool,
}

impl WriteOpView {
    /// A write of `value` to `reg` on `slave` of which nothing is sent yet.
    pub open spec fn start(slave: u8, reg: u8, value: u32) -> WriteOpView {
        WriteOpView { frame: write_frame(slave, reg, value), sent: 0, faulted: false }
    }

    /// No more bytes count as sent than the frame has.
    pub open spec fn wf(self) -> bool {
        self.sent <= self.frame.len()
    }

    /// A faulted write has failed; otherwise the first byte not yet
    /// accepted is due; once all are accepted the write has succeeded, with
    /// no reply awaited.
    pub open spec fn action(self) -> Action<()> {
        if self.faulted {
            Action::Done(Err(TmcError::SerialError))
        } else if self.sent < self.frame.len() {
            Action::Send(self.frame[self.sent as int])
        } else {
            Action::Done(Ok(()))
        }
    }

    /// While a byte is due, its acceptance moves on to the next byte and a
    /// fault ends the write. Every other event leaves the write as it was.
    pub open spec fn after(self, event: Event) -> WriteOpView {
        match (self.action(), event) {
            (Action::Send(_), Event::Sent) => WriteOpView { sent: self.sent + 1, ..self },
            (Action::Send(_), Event::Fault) => WriteOpView { faulted: true, ..self },
            _ => self,
        }
    }

    /// The write after a sequence of events, taken in order.
    pub open spec fn run(self, events: Seq<Event>) -> WriteOpView
        decreases events.len(),
    {
        if events.len() == 0 {
            self
        } else {
            self.run(events.drop_last()).after(events.last())
        }
    }
}

/// A register write in progress.
#[derive(Debug, Clone, Copy)]
pub struct WriteOp {
    frame: [u8; 8],
    sent: usize,
    faulted: bool,
}

impl View for WriteOp {
    type V = WriteOpView;

    closed spec fn view(&self) -> WriteOpView {
        WriteOpView { frame: self.frame@, sent: self.sent as nat, faulted: self.faulted }
    }
}

impl WriteOp {
    #[verifier::type_invariant]
    spec fn inv(self) -> bool {
        self.sent <= 8
    }

    /// Begin a write of `value` to register `reg` of the chip at `slave`.
    pub fn new(slave: u8, reg: u8, value: u32) -> (op: WriteOp)
        ensures
            op@ == WriteOpView::start(slave, reg, value),
            op@.wf(),
    {
        WriteOp { frame: build_write_packet(slave, reg, value), sent: 0, faulted: false }
    }

    /// What the write needs done next.
    pub fn action(&self) -> (action: Action<()>)
        ensures
            action == self@.action(),
    {
        proof {
            use_type_invariant(self);
        }
        if self.faulted {
            Action::Done(Err(TmcError::SerialError))
        } else if self.sent < 8 {
            Action::Send(self.frame[self.sent])
        } else {
            Action::Done(Ok(()))
        }
    }

    /// The write after the transport's answer to its last action.
    pub fn step(self, event: Event) -> (next: WriteOp)
        ensures
            next@ == self@.after(event),
            next@.wf(),
    {
        proof {
            use_type_invariant(&self);
        }
        if self.faulted || self.sent >= 8 {
            return self;
        }
        match event {
            Event::Sent => WriteOp { frame: self.frame, sent: self.sent + 1, faulted: false },
            Event::Fault => WriteOp { frame: self.frame, sent: self.sent, faulted: true },
            _ => self,
        }
    }
}

/// A register read in progress: whom and what it asks, how many bytes of
/// the request the transport has accepted, the bytes of the reply gathered
/// so far, and whether the transport has faulted.
pub struct ReadOpView {
    pub slave: u8,
    pub reg: u8,
    pub sent: nat,
    pub reply: Seq<u8>,
    pub faulted: bool,
}

impl ReadOpView {
    /// A read of `reg` on `slave` of which nothing is sent yet.
    pub open spec fn start(slave: u8, reg: u8) -> ReadOpView {
        ReadOpView { slave, reg, sent: 0, reply: Seq::empty(), faulted: false }
    }

    /// The request frame that the read sends.
    pub open spec fn frame(self) -> Seq<u8> {
        read_request_frame(self.slave, self.reg)
    }

    /// No more bytes count as sent than the request has, no more are
    /// gathered than a reply has, and none is gathered before the request
    /// is out.
    pub open spec fn wf(self) -> bool {
        &&& self.sent <= 4
        &&& self.reply.len() <= 7
        &&& self.reply.len() > 0 ==> self.sent == 4
    }

    /// A faulted read has failed; otherwise the first request byte not yet
    /// accepted is due; then the reply is taken byte by byte; once it is
    /// complete the read ends with what the reply amounts to.
    pub open spec fn action(self) -> Action<u32> {
        if self.faulted {
            Action::Done(Err(TmcError::SerialError))
        } else if self.sent < 4 {
            Action::Send(self.frame()[self.sent as int])
        } else if self.reply.len() < 7 {
            Action::Receive
        } else {
            Action::Done(reply_outcome(self.slave, self.reg, self.reply))
        }
    }

    /// While a byte is due, its acceptance moves on to the next; while the
    /// reply is awaited, a byte that arrives is put behind those gathered;
    /// in either case a fault ends the read. Every other event leaves the
    /// read as it was.
    pub open spec fn after(self, event: Event) -> ReadOpView {
        match (self.action(), event) {
            (Action::Send(_), Event::Sent) => ReadOpView { sent: self.sent + 1, ..self },
            (Action::Receive, Event::Received(byte)) => ReadOpView {
                reply: self.reply.push(byte),
                ..self
            },
            (Action::Send(_), Event::Fault) | (Action::Receive, Event::Fault) => ReadOpView {
                faulted: true,
                ..self
            },
            _ => self,
        }
    }

    /// The read after a sequence of events, taken in order.
    pub open spec fn run(self, events: Seq<Event>) -> ReadOpView
        decreases events.len(),
    {
        if events.len() == 0 {
            self
        } else {
            self.run(events.drop_last()).after(events.last())
        }
    }

    /// A read whose first `count` actions a willing transport has carried
    /// out: the request has gone out byte by byte, then `reply` has come in
    /// byte by byte.
    pub open spec fn answered(slave: u8, reg: u8, reply: Seq<u8>, count: int) -> ReadOpView {
        ReadOpView {
            slave,
            reg,
            sent: if count < 4 {
                count as nat
            } else {
                4
            },
            reply: if count < 4 {
                Seq::empty()
            } else {
                reply.take(count - 4)
            },
            faulted: false,
        }
    }
}

/// A register read in progress.
#[derive(Debug, Clone, Copy)]
pub struct ReadOp {
    slave: u8,
    reg: u8,
    frame: [u8; 4],
    sent: usize,
    reply: [u8; 7],
    received: usize,
    faulted: bool,
}

impl View for ReadOp {
    type V = ReadOpView;

    closed spec fn view(&self) -> ReadOpView {
        ReadOpView {
            slave: self.slave,
            reg: self.reg,
            sent: self.sent as nat,
            reply: self.reply@.take(self.received as int),
            faulted: self.faulted,
        }
    }
}

impl ReadOp {
    #[verifier::type_invariant]
    spec fn inv(self) -> bool {
        &&& self.frame@ == read_request_frame(self.slave, self.reg)
        &&& self.sent <= 4
        &&& self.received <= 7
        &&& self.received > 0 ==> self.sent == 4
    }

    /// Begin a read of register `reg` of the chip at `slave`.
    pub fn new(slave: u8, reg: u8) -> (op: ReadOp)
        ensures
            op@ == ReadOpView::start(slave, reg),
            op@.wf(),
    {
        let op = ReadOp {
            slave,
            reg,
            frame: build_read_packet(slave, reg),
            sent: 0,
            reply: [0u8; 7],
            received: 0,
            faulted: false,
        };
        assert(op@.reply == Seq::<u8>::empty());
        op
    }

    /// What the read needs done next.
    pub fn action(&self) -> (action: Action<u32>)
        ensures
            action == self@.action(),
    {
        proof {
            use_type_invariant(self);
        }
        if self.faulted {
            Action::Done(Err(TmcError::SerialError))
        } else if self.sent < 4 {
            Action::Send(self.frame[self.sent])
        } else if self.received < 7 {
            Action::Receive
        } else {
            assert(self.reply@.take(7) == self.reply@);
            Action::Done(check_reply(self.slave, self.reg, &self.reply))
        }
    }

    /// The read after the transport's answer to its last action.
    pub fn step(self, event: Event) -> (next: ReadOp)
        ensures
            next@ == self@.after(event),
            next@.wf(),
    {
        proof {
            use_type_invariant(&self);
        }
        if self.faulted {
            return self;
        }
        if self.sent < 4 {
            match event {
                Event::Sent => ReadOp { sent: self.sent + 1, ..self },
                Event::Fault => ReadOp { faulted: true, ..self },
                _ => self,
            }
        } else if self.received < 7 {
            match event {
                Event::Received(byte) => {
                    let mut reply: [u8; 7] = self.reply;
                    reply[self.received] = byte;
                    let next = ReadOp { reply, received: self.received + 1, ..self };
                    assert(next@.reply == self@.reply.push(byte));
                    next
                },
                Event::Fault => ReadOp { faulted: true, ..self },
                _ => self,
            }
        } else {
            self
        }
    }
}

/// Would-blocks never show in the course of a write: with or without them
/// the same events lead to the same state.
pub proof fn lemma_write_skips_would_block(op: WriteOpView, events: Seq<Event>)
    ensures
        op.run(events) == op.run(without_would_block(events)),
    decreases events.len(),
{
    if events.len() == 0 {
        reveal(Seq::filter);
    } else {
        lemma_write_skips_would_block(op, events.drop_last());
        lemma_without_would_block_unfold(events);
        let kept = without_would_block(events.drop_last());
        if events.last() != Event::WouldBlock {
            assert(kept.push(events.last()).drop_last() == kept);
        }
    }
}

/// On a transport that has accepted `count` bytes and never faulted, a
/// write has got exactly the first `count` bytes of its frame out, in
/// order, however often the transport stalled in between. So the byte due
/// next is the one at `count`, and with the eighth byte out the write has
/// succeeded.
pub proof fn lemma_write_on_willing_transport(
    slave: u8,
    reg: u8,
    value: u32,
    events: Seq<Event>,
    count: nat,
)
    requires
        count <= 8,
        without_would_block(events) == sent_events(count),
    ensures
        WriteOpView::start(slave, reg, value).run(events) == (WriteOpView {
            sent: count,
            ..WriteOpView::start(slave, reg, value)
        }),
        count < 8 ==> WriteOpView::start(slave, reg, value).run(events).action() == Action::<
            (),
        >::Send(write_frame(slave, reg, value)[count as int]),
        count == 8 ==> WriteOpView::start(slave, reg, value).run(events).action() == Action::<
            (),
        >::Done(Ok(())),
{
    let start = WriteOpView::start(slave, reg, value);
    lemma_write_skips_would_block(start, events);
    lemma_write_accepts(start, count);
}

proof fn lemma_write_accepts(start: WriteOpView, count: nat)
    requires
        start.sent == 0,
        !start.faulted,
        count <= start.frame.len(),
    ensures
        start.run(sent_events(count)) == (WriteOpView { sent: count, ..start }),
    decreases count,
{
    if count > 0 {
        lemma_write_accepts(start, (count - 1) as nat);
        assert(sent_events(count).drop_last() == sent_events((count - 1) as nat));
    }
}

/// A fault ends a write for good: once the transport has faulted while a
/// byte was due, the write has failed whatever is reported afterwards, and
/// no further byte counts as sent.
pub proof fn lemma_write_fault_is_final(op: WriteOpView, events: Seq<Event>)
    requires
        op.action() is Send,
    ensures
        op.after(Event::Fault).run(events) == op.after(Event::Fault),
        op.after(Event::Fault).sent == op.sent,
        op.after(Event::Fault).run(events).action() == Action::<()>::Done(
            Err(TmcError::SerialError),
        ),
    decreases events.len(),
{
    if events.len() > 0 {
        lemma_write_fault_is_final(op, events.drop_last());
    }
}

/// Would-blocks never show in the course of a read: with or without them
/// the same events lead to the same state.
pub proof fn lemma_read_skips_would_block(op: ReadOpView, events: Seq<Event>)
    ensures
        op.run(events) == op.run(without_would_block(events)),
    decreases events.len(),
{
    if events.len() == 0 {
        reveal(Seq::filter);
    } else {
        lemma_read_skips_would_block(op, events.drop_last());
        lemma_without_would_block_unfold(events);
        let kept = without_would_block(events.drop_last());
        if events.last() != Event::WouldBlock {
            assert(kept.push(events.last()).drop_last() == kept);
        }
    }
}

/// What a willing transport reports in the course of a read: the four
/// bytes of the request go out and the bytes of `reply` come back.
pub open spec fn read_exchange(reply: Seq<u8>) -> Seq<Event> {
    sent_events(4) + received_events(reply)
}

/// On a transport that accepts the four bytes of the request, then hands
/// over the seven bytes of `reply`, and never faults, a read ends with what
/// the reply amounts to, however often the transport stalled in between.
pub proof fn lemma_read_on_willing_transport(
    slave: u8,
    reg: u8,
    reply: Seq<u8>,
    events: Seq<Event>,
)
    requires
        reply.len() == 7,
        without_would_block(events) == read_exchange(reply),
    ensures
        ReadOpView::start(slave, reg).run(events) == ReadOpView::answered(slave, reg, reply, 11),
        ReadOpView::start(slave, reg).run(events).action() == Action::<u32>::Done(
            reply_outcome(slave, reg, reply),
        ),
{
    lemma_read_skips_would_block(ReadOpView::start(slave, reg), events);
    lemma_read_progress(slave, reg, reply, 11);
    lemma_read_answer(slave, reg, reply, 10);
    assert(read_exchange(reply).take(11) == read_exchange(reply));
}

/// Each answer of a willing transport takes a read one action further: a
/// byte of the request is out, or a byte of the reply is in. The read has
/// not ended before the last byte of the reply is in, and then ends with
/// what the reply amounts to.
pub proof fn lemma_read_answer(slave: u8, reg: u8, reply: Seq<u8>, count: int)
    requires
        reply.len() == 7,
        0 <= count < 11,
    ensures
        ReadOpView::answered(slave, reg, reply, 0) == ReadOpView::start(slave, reg),
        ReadOpView::answered(slave, reg, reply, count).after(read_exchange(reply)[count])
            == ReadOpView::answered(slave, reg, reply, count + 1),
        !(ReadOpView::answered(slave, reg, reply, count).action() is Done),
        ReadOpView::answered(slave, reg, reply, 11).action() == Action::<u32>::Done(
            reply_outcome(slave, reg, reply),
        ),
{
    assert(reply.take(0) == Seq::<u8>::empty());
    assert(reply.take(7) == reply);
    if count >= 4 {
        assert(reply.take(count - 4).push(reply[count - 4]) == reply.take(count - 3));
    }
}

/// The state of a read once a willing transport has answered `count`
/// times.
pub proof fn lemma_read_progress(slave: u8, reg: u8, reply: Seq<u8>, count: int)
    requires
        reply.len() == 7,
        0 <= count <= 11,
    ensures
        ReadOpView::start(slave, reg).run(read_exchange(reply).take(count)) == ReadOpView::answered(
            slave,
            reg,
            reply,
            count,
        ),
    decreases count,
{
    let script = read_exchange(reply);
    lemma_read_answer(slave, reg, reply, 0);
    if count > 0 {
        lemma_read_progress(slave, reg, reply, count - 1);
        lemma_read_answer(slave, reg, reply, count - 1);
        assert(script.take(count).drop_last() == script.take(count - 1));
        assert(script.take(count).last() == script[count - 1]);
    } else {
        assert(script.take(0).len() == 0);
    }
}

/// A fault ends a read for good: once the transport has faulted while a
/// byte was due or awaited, the read has failed whatever is reported
/// afterwards.
pub proof fn lemma_read_fault_is_final(op: ReadOpView, events: Seq<Event>)
    requires
        op.action() is Send || op.action() is Receive,
    ensures
        op.after(Event::Fault).run(events) == op.after(Event::Fault),
        op.after(Event::Fault).run(events).action() == Action::<u32>::Done(
            Err(TmcError::SerialError),
        ),
    decreases events.len(),
{
    if events.len() > 0 {
        lemma_read_fault_is_final(op, events.drop_last());
    }
}

/// A write fails in one way only: with a transport failure, and exactly
/// when the transport has faulted.
pub proof fn lemma_write_fails_only_by_fault(op: WriteOpView)
    ensures
        op.action() == Action::<()>::Done(Err(TmcError::SerialError)) <==> op.faulted,
        op.action() is Done && op.action()->Done_0 is Err ==> op.faulted,
{
}

/// A read fails with a transport failure exactly when the transport has
/// faulted. Its other failures are those of its reply, a protocol mismatch
/// or a checksum mismatch: a read never reports a dead link.
pub proof fn lemma_read_fails_by_fault_or_reply(op: ReadOpView)
    ensures
        op.action() == Action::<u32>::Done(Err(TmcError::SerialError)) <==> op.faulted,
        op.action() is Done && op.action()->Done_0 is Err && !op.faulted ==> op.action()
            == Action::<u32>::Done(Err(TmcError::VerificationError)) || op.action() == Action::<
            u32,
        >::Done(Err(TmcError::CrcError)),
        op.action() != Action::<u32>::Done(Err(TmcError::LivenessError)),
{
}

} // verus!
