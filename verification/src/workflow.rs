//! Operations built from register reads and writes.
//!
//! Bringing up the serial link checks that the chip acts on what it is
//! sent: the chip counts every write it accepts, so the count is read, a
//! write is made, and the count is read again. A count that has not moved
//! means that the write never arrived, although every single exchange
//! looked sound. That is a failure of its own kind, told apart from a
//! transport that faults and from a reply that fails validation, since it
//! calls for another remedy. Setting the motor currents checks each
//! parameter against the width of its register field before anything is
//! sent.

use vstd::prelude::*;
use crate::errors::TmcError;
use crate::registers::{GCONF_PDN_DISABLE, REG_GCONF, REG_IFCNT, REG_IHOLD_IRUN};
use crate::reply::{reply_outcome, reply_value};
use crate::transfer::{
    lemma_read_answer,
    lemma_without_would_block_unfold,
    read_exchange,
    sent_events,
    without_would_block,
    Action,
    Event,
    ReadOp,
    ReadOpView,
    WriteOp,
    WriteOpView,
};

verus! {

/// Whether the three current parameters fit their register fields: five
/// bits each for the run and hold currents, four for the hold delay.
pub open spec fn current_fields_valid(irun: u8, ihold: u8, ihold_delay: u8) -> bool {
    irun <= 31 && ihold <= 31 && ihold_delay <= 15
}

/// The register value that holds the three current parameters: the hold
/// current from bit 0, the run current from bit 8, the hold delay from
/// bit 16.
pub open spec fn current_value(irun: u8, ihold: u8, ihold_delay: u8) -> u32 {
    (ihold + 256 * irun + 65536 * ihold_delay) as u32
}

/// Pack the run current, the hold current and the hold delay into the value
/// of the current-control register, or reject them if one is out of range.
pub fn pack_current(irun: u8, ihold: u8, ihold_delay: u8) -> (packed: Result<u32, TmcError>)
    ensures
        current_fields_valid(irun, ihold, ihold_delay) ==> packed is Ok && packed->Ok_0
            == current_value(irun, ihold, ihold_delay),
        !current_fields_valid(irun, ihold, ihold_delay) ==> packed is Err && packed->Err_0
            == TmcError::VerificationError,
{
    if irun > 31 || ihold > 31 || ihold_delay > 15 {
        return Err(TmcError::VerificationError);
    }
    let a: u32 = ihold as u32;
    let b: u32 = irun as u32;
    let c: u32 = ihold_delay as u32;
    proof {
        assert((a & 0x1F) | ((b & 0x1F) << 8) | ((c & 0x0F) << 16) == a + 256 * b + 65536 * c)
            by (bit_vector)
            requires
                a <= 31,
                b <= 31,
                c <= 15,
        ;
    }
    let val: u32 = (a & 0x1F) | ((b & 0x1F) << 8) | ((c & 0x0F) << 16);
    Ok(val)
}

/// In the packed value each parameter can be read back from its field, and
/// no bit outside the three fields is set.
pub proof fn lemma_current_value_fields(irun: u8, ihold: u8, ihold_delay: u8)
    requires
        current_fields_valid(irun, ihold, ihold_delay),
    ensures
        current_value(irun, ihold, ihold_delay) & 0x1F == ihold,
        (current_value(irun, ihold, ihold_delay) >> 8) & 0x1F == irun,
        (current_value(irun, ihold, ihold_delay) >> 16) & 0x0F == ihold_delay,
        current_value(irun, ihold, ihold_delay) & 0xFFF0_E0E0 == 0,
{
    let v: u32 = current_value(irun, ihold, ihold_delay);
    assert(v & 0x1F == ihold && (v >> 8) & 0x1F == irun && (v >> 16) & 0x0F == ihold_delay && v
        & 0xFFF0_E0E0 == 0) by (bit_vector)
        requires
            irun <= 31,
            ihold <= 31,
            ihold_delay <= 15,
            v == ihold + 256 * irun + 65536 * ihold_delay,
    ;
}

/// Begin setting the run and hold currents of the chip at `slave`.
///
/// Parameters out of range are rejected here, before any operation exists
/// that could ask for a byte to be sent. Otherwise the result is the write
/// of the packed value to the current-control register, not yet started.
pub fn set_current(slave: u8, irun: u8, ihold: u8, ihold_delay: u8) -> (op: Result<
    WriteOp,
    TmcError,
>)
    ensures
        current_fields_valid(irun, ihold, ihold_delay) ==> op is Ok && op->Ok_0@
            == WriteOpView::start(slave, REG_IHOLD_IRUN, current_value(irun, ihold, ihold_delay)),
        !current_fields_valid(irun, ihold, ihold_delay) ==> op is Err && op->Err_0
            == TmcError::VerificationError,
{
    match pack_current(irun, ihold, ihold_delay) {
        Ok(val) => Ok(WriteOp::new(slave, REG_IHOLD_IRUN, val)),
        Err(e) => Err(e),
    }
}

/// What two readings of the chip's write counter, taken before and after a
/// write, say about the link: the write arrived exactly if the counter
/// moved. A counter that stood still is a dead link, which is no transport
/// failure.
pub open spec fn counter_verdict(before: u32, after: u32) -> Result<(), TmcError> {
    if after == before {
        Err(TmcError::LivenessError)
    } else {
        Ok(())
    }
}

/// Judge the link by the write counter as read before and after a write.
pub fn check_counter(before: u32, after: u32) -> (verdict: Result<(), TmcError>)
    ensures
        verdict == counter_verdict(before, after),
        after == before ==> verdict is Err && verdict->Err_0 == TmcError::LivenessError,
        after != before ==> verdict is Ok,
{
    if after == before {
        Err(TmcError::LivenessError)
    } else {
        Ok(())
    }
}

/// The action of a step of a larger operation, seen as an action of the
/// operation itself: requests to the transport pass through, and the value
/// that the step ended with is dropped.
pub open spec fn relay(action: Action<u32>) -> Action<()> {
    match action {
        Action::Send(byte) => Action::Send(byte),
        Action::Receive => Action::Receive,
        Action::Done(Ok(_)) => Action::Done(Ok(())),
        Action::Done(Err(e)) => Action::Done(Err(e)),
    }
}

/// Where the bring-up of the serial link stands.
pub enum InitPhase {
    /// The write counter is being read for the first time.
    CountBefore { read: ReadOpView },
    /// The general configuration is being read.
    ReadConfig { before: u32, read: ReadOpView },
    /// The general configuration is being written back with the bit set
    /// that hands the chip to the serial interface.
    WriteConfig { before: u32, write: WriteOpView },
    /// The write counter is being read for the second time.
    CountAfter { before: u32, read: ReadOpView },
    /// The bring-up has ended with this result.
    Finished { outcome: Result<(), TmcError> },
}

/// The bring-up of the serial link to the chip at `slave`, in progress.
pub struct UartInitView {
    pub slave: u8,
    pub phase: InitPhase,
}

impl UartInitView {
    /// A bring-up of which nothing is sent yet.
    pub open spec fn start(slave: u8) -> UartInitView {
        UartInitView {
            slave,
            phase: InitPhase::CountBefore { read: ReadOpView::start(slave, REG_IFCNT) },
        }
    }

    /// The action of the register operation under way, or the result once
    /// the bring-up has ended.
    pub open spec fn action(self) -> Action<()> {
        match self.phase {
            InitPhase::CountBefore { read } => relay(read.action()),
            InitPhase::ReadConfig { before, read } => relay(read.action()),
            InitPhase::WriteConfig { before, write } => write.action(),
            InitPhase::CountAfter { before, read } => relay(read.action()),
            InitPhase::Finished { outcome } => Action::Done(outcome),
        }
    }

    /// The event goes to the register operation under way. When that ends
    /// in failure, so does the bring-up. When it ends well, the next one
    /// begins: after the first count the configuration is read, then
    /// written back with the serial-control bit set, then the count is read
    /// again, and the two counts decide.
    pub open spec fn after(self, event: Event) -> UartInitView {
        let phase = match self.phase {
            InitPhase::CountBefore { read } => match read.after(event).action() {
                Action::Done(Ok(count)) => InitPhase::ReadConfig {
                    before: count,
                    read: ReadOpView::start(self.slave, REG_GCONF),
                },
                Action::Done(Err(e)) => InitPhase::Finished { outcome: Err(e) },
                _ => InitPhase::CountBefore { read: read.after(event) },
            },
            InitPhase::ReadConfig { before, read } => match read.after(event).action() {
                Action::Done(Ok(gconf)) => InitPhase::WriteConfig {
                    before,
                    write: WriteOpView::start(self.slave, REG_GCONF, gconf | GCONF_PDN_DISABLE),
                },
                Action::Done(Err(e)) => InitPhase::Finished { outcome: Err(e) },
                _ => InitPhase::ReadConfig { before, read: read.after(event) },
            },
            InitPhase::WriteConfig { before, write } => match write.after(event).action() {
                Action::Done(Ok(_)) => InitPhase::CountAfter {
                    before,
                    read: ReadOpView::start(self.slave, REG_IFCNT),
                },
                Action::Done(Err(e)) => InitPhase::Finished { outcome: Err(e) },
                _ => InitPhase::WriteConfig { before, write: write.after(event) },
            },
            InitPhase::CountAfter { before, read } => match read.after(event).action() {
                Action::Done(Ok(count)) => InitPhase::Finished {
                    outcome: counter_verdict(before, count),
                },
                Action::Done(Err(e)) => InitPhase::Finished { outcome: Err(e) },
                _ => InitPhase::CountAfter { before, read: read.after(event) },
            },
            InitPhase::Finished { outcome } => InitPhase::Finished { outcome },
        };
        UartInitView { slave: self.slave, phase }
    }

    /// The bring-up after a sequence of events, taken in order.
    pub open spec fn run(self, events: Seq<Event>) -> UartInitView
        decreases events.len(),
    {
        if events.len() == 0 {
            self
        } else {
            self.run(events.drop_last()).after(events.last())
        }
    }

    /// Unless the bring-up has ended, the register operation under way has
    /// not: it still asks something of the transport.
    pub open spec fn pending(self) -> bool {
        match self.phase {
            InitPhase::CountBefore { read } => !(read.action() is Done),
            InitPhase::ReadConfig { before, read } => !(read.action() is Done),
            InitPhase::WriteConfig { before, write } => !(write.action() is Done),
            InitPhase::CountAfter { before, read } => !(read.action() is Done),
            InitPhase::Finished { outcome } => true,
        }
    }
}

#[derive(Debug, Clone, Copy)]
enum Stage {
    CountBefore { read: ReadOp },
    ReadConfig { before: u32, read: ReadOp },
    WriteConfig { before: u32, write: WriteOp },
    CountAfter { before: u32, read: ReadOp },
    Finished { outcome: Result<(), TmcError> },
}

/// The bring-up of the serial link, in progress.
#[derive(Debug, Clone, Copy)]
pub struct UartInit {
    slave: u8,
    stage: Stage,
}

impl View for UartInit {
    type V = UartInitView;

    closed spec fn view(&self) -> UartInitView {
        UartInitView {
            slave: self.slave,
            phase: match self.stage {
                Stage::CountBefore { read } => InitPhase::CountBefore { read: read@ },
                Stage::ReadConfig { before, read } => InitPhase::ReadConfig { before, read: read@ },
                Stage::WriteConfig { before, write } => InitPhase::WriteConfig {
                    before,
                    write: write@,
                },
                Stage::CountAfter { before, read } => InitPhase::CountAfter { before, read: read@ },
                Stage::Finished { outcome } => InitPhase::Finished { outcome },
            },
        }
    }
}

fn relay_action(action: Action<u32>) -> (relayed: Action<()>)
    ensures
        relayed == relay(action),
{
    match action {
        Action::Send(byte) => Action::Send(byte),
        Action::Receive => Action::Receive,
        Action::Done(Ok(_)) => Action::Done(Ok(())),
        Action::Done(Err(e)) => Action::Done(Err(e)),
    }
}

impl UartInit {
    #[verifier::type_invariant]
    spec fn inv(self) -> bool {
        self@.pending()
    }

    /// Begin the bring-up of the serial link to the chip at `slave`.
    pub fn new(slave: u8) -> (init: UartInit)
        ensures
            init@ == UartInitView::start(slave),
            init@.pending(),
    {
        UartInit { slave, stage: Stage::CountBefore { read: ReadOp::new(slave, REG_IFCNT) } }
    }

    /// What the bring-up needs done next.
    pub fn action(&self) -> (action: Action<()>)
        ensures
            action == self@.action(),
    {
        match &self.stage {
            Stage::CountBefore { read } => relay_action(read.action()),
            Stage::ReadConfig { before, read } => relay_action(read.action()),
            Stage::WriteConfig { before, write } => write.action(),
            Stage::CountAfter { before, read } => relay_action(read.action()),
            Stage::Finished { outcome } => Action::Done(*outcome),
        }
    }

    /// The bring-up after the transport's answer to its last action.
    pub fn step(self, event: Event) -> (next: UartInit)
        ensures
            next@ == self@.after(event),
            next@.pending(),
    {
        proof {
            use_type_invariant(&self);
            lemma_init_stays_pending(self@, event);
        }
        let slave: u8 = self.slave;
        let stage = match self.stage {
            Stage::CountBefore { read } => {
                let read = read.step(event);
                match read.action() {
                    Action::Done(Ok(count)) => Stage::ReadConfig {
                        before: count,
                        read: ReadOp::new(slave, REG_GCONF),
                    },
                    Action::Done(Err(e)) => Stage::Finished { outcome: Err(e) },
                    _ => Stage::CountBefore { read },
                }
            },
            Stage::ReadConfig { before, read } => {
                let read = read.step(event);
                match read.action() {
                    Action::Done(Ok(gconf)) => Stage::WriteConfig {
                        before,
                        write: WriteOp::new(slave, REG_GCONF, gconf | GCONF_PDN_DISABLE),
                    },
                    Action::Done(Err(e)) => Stage::Finished { outcome: Err(e) },
                    _ => Stage::ReadConfig { before, read },
                }
            },
            Stage::WriteConfig { before, write } => {
                let write = write.step(event);
                match write.action() {
                    Action::Done(Ok(_)) => Stage::CountAfter {
                        before,
                        read: ReadOp::new(slave, REG_IFCNT),
                    },
                    Action::Done(Err(e)) => Stage::Finished { outcome: Err(e) },
                    _ => Stage::WriteConfig { before, write },
                }
            },
            Stage::CountAfter { before, read } => {
                let read = read.step(event);
                match read.action() {
                    Action::Done(Ok(count)) => Stage::Finished {
                        outcome: check_counter(before, count),
                    },
                    Action::Done(Err(e)) => Stage::Finished { outcome: Err(e) },
                    _ => Stage::CountAfter { before, read },
                }
            },
            Stage::Finished { outcome } => Stage::Finished { outcome },
        };
        UartInit { slave, stage }
    }
}

/// A bring-up under way ends in a dead link at exactly one place: where
/// the second reading of the write counter passes validation and equals the
/// first. No fault and no failed reply ends it so.
pub proof fn lemma_dead_link_exactly_on_unmoved_counter(init: UartInitView, event: Event)
    requires
        !(init.phase is Finished),
    ensures
        init.after(event).action() == Action::<()>::Done(Err(TmcError::LivenessError)) <==> (
        init.phase is CountAfter && init.phase->CountAfter_read.after(event).action() == Action::<
            u32,
        >::Done(Ok(init.phase->CountAfter_before))),
{
}

/// A bring-up under way ends in a transport failure exactly when the
/// transport faults. An unmoved counter or a failed reply never ends it so.
pub proof fn lemma_transport_failure_exactly_on_fault(init: UartInitView, event: Event)
    requires
        init.pending(),
        !(init.phase is Finished),
    ensures
        init.after(event).action() == Action::<()>::Done(Err(TmcError::SerialError)) <==> event
            == Event::Fault,
{
}

/// A bring-up never rests on a register operation that has ended: whenever
/// one ends, the next begins or the bring-up ends with it. So an event that
/// changes nothing for the operation under way changes nothing at all.
pub proof fn lemma_init_stays_pending(init: UartInitView, event: Event)
    requires
        init.pending(),
    ensures
        init.after(event).pending(),
        init.after(Event::WouldBlock) == init,
{
}

/// Would-blocks never show in the course of a bring-up: with or without
/// them the same events lead to the same state.
pub proof fn lemma_init_skips_would_block(init: UartInitView, events: Seq<Event>)
    requires
        init.pending(),
    ensures
        init.run(events).pending(),
        init.run(events) == init.run(without_would_block(events)),
    decreases events.len(),
{
    if events.len() == 0 {
        reveal(Seq::filter);
    } else {
        lemma_init_skips_would_block(init, events.drop_last());
        lemma_without_would_block_unfold(events);
        lemma_init_stays_pending(init.run(events.drop_last()), events.last());
        let kept = without_would_block(events.drop_last());
        if events.last() != Event::WouldBlock {
            assert(kept.push(events.last()).drop_last() == kept);
        }
    }
}

/// A fault ends a bring-up for good: once the transport has faulted while
/// the bring-up was under way, it has failed whatever is reported
/// afterwards.
pub proof fn lemma_init_fault_is_final(init: UartInitView, events: Seq<Event>)
    requires
        init.pending(),
        !(init.phase is Finished),
    ensures
        init.after(Event::Fault).run(events) == init.after(Event::Fault),
        init.after(Event::Fault).run(events).action() == Action::<()>::Done(
            Err(TmcError::SerialError),
        ),
    decreases events.len(),
{
    if events.len() > 0 {
        lemma_init_fault_is_final(init, events.drop_last());
    }
}

/// What a willing transport reports in the course of a whole bring-up: the
/// count is read and `first` comes back, the configuration is read and
/// `config` comes back, the eight bytes of the write go out, and the count
/// is read again and `second` comes back.
pub open spec fn init_exchange(first: Seq<u8>, config: Seq<u8>, second: Seq<u8>) -> Seq<Event> {
    read_exchange(first) + read_exchange(config) + sent_events(8) + read_exchange(second)
}

/// On a transport that never faults, with a chip whose three replies all
/// pass validation, the two counts alone decide how the bring-up ends,
/// however often the transport stalled in between. If they are equal it
/// ends in a dead link, although every exchange on the way was sound; if
/// they differ it ends well.
pub proof fn lemma_init_on_willing_transport(
    slave: u8,
    first: Seq<u8>,
    config: Seq<u8>,
    second: Seq<u8>,
    events: Seq<Event>,
)
    requires
        first.len() == 7,
        config.len() == 7,
        second.len() == 7,
        reply_outcome(slave, REG_IFCNT, first) is Ok,
        reply_outcome(slave, REG_GCONF, config) is Ok,
        reply_outcome(slave, REG_IFCNT, second) is Ok,
        without_would_block(events) == init_exchange(first, config, second),
    ensures
        UartInitView::start(slave).run(events).action() == Action::<()>::Done(
            counter_verdict(reply_value(first), reply_value(second)),
        ),
        reply_value(first) == reply_value(second) ==> UartInitView::start(slave).run(
            events,
        ).action() == Action::<()>::Done(Err(TmcError::LivenessError)),
        reply_value(first) != reply_value(second) ==> UartInitView::start(slave).run(
            events,
        ).action() == Action::<()>::Done(Ok(())),
{
    let start = UartInitView::start(slave);
    let script = init_exchange(first, config, second);
    lemma_init_skips_would_block(start, events);
    lemma_init_progress(slave, first, config, second, 41);
    assert(script.take(41) == script);
}

/// A bring-up whose first `count` actions a willing transport has carried
/// out.
spec fn init_answered(
    slave: u8,
    first: Seq<u8>,
    config: Seq<u8>,
    second: Seq<u8>,
    count: int,
) -> UartInitView {
    let before = reply_value(first);
    let phase = if count < 11 {
        InitPhase::CountBefore { read: ReadOpView::answered(slave, REG_IFCNT, first, count) }
    } else if count < 22 {
        InitPhase::ReadConfig {
            before,
            read: ReadOpView::answered(slave, REG_GCONF, config, count - 11),
        }
    } else if count < 30 {
        InitPhase::WriteConfig {
            before,
            write: WriteOpView {
                sent: (count - 22) as nat,
                ..WriteOpView::start(slave, REG_GCONF, reply_value(config) | GCONF_PDN_DISABLE)
            },
        }
    } else if count < 41 {
        InitPhase::CountAfter {
            before,
            read: ReadOpView::answered(slave, REG_IFCNT, second, count - 30),
        }
    } else {
        InitPhase::Finished { outcome: counter_verdict(before, reply_value(second)) }
    };
    UartInitView { slave, phase }
}

/// The event at each place of a whole bring-up on a willing transport.
proof fn lemma_init_exchange_at(first: Seq<u8>, config: Seq<u8>, second: Seq<u8>, i: int)
    requires
        first.len() == 7,
        config.len() == 7,
        second.len() == 7,
        0 <= i < 41,
    ensures
        init_exchange(first, config, second).len() == 41,
        init_exchange(first, config, second)[i] == (if i < 11 {
            read_exchange(first)[i]
        } else if i < 22 {
            read_exchange(config)[i - 11]
        } else if i < 30 {
            Event::Sent
        } else {
            read_exchange(second)[i - 30]
        }),
{
}

/// The state of a bring-up once a willing transport has answered `count`
/// times.
proof fn lemma_init_progress(
    slave: u8,
    first: Seq<u8>,
    config: Seq<u8>,
    second: Seq<u8>,
    count: int,
)
    requires
        first.len() == 7,
        config.len() == 7,
        second.len() == 7,
        reply_outcome(slave, REG_IFCNT, first) is Ok,
        reply_outcome(slave, REG_GCONF, config) is Ok,
        reply_outcome(slave, REG_IFCNT, second) is Ok,
        0 <= count <= 41,
    ensures
        UartInitView::start(slave).run(init_exchange(first, config, second).take(count))
            == init_answered(slave, first, config, second, count),
    decreases count,
{
    let script = init_exchange(first, config, second);
    lemma_read_answer(slave, REG_IFCNT, first, 0);
    if count == 0 {
        assert(script.take(0).len() == 0);
    } else {
        let i = count - 1;
        lemma_init_progress(slave, first, config, second, i);
        lemma_init_exchange_at(first, config, second, i);
        assert(script.take(count).drop_last() == script.take(i));
        assert(script.take(count).last() == script[i]);
        if i < 11 {
            lemma_read_answer(slave, REG_IFCNT, first, i);
            lemma_read_answer(slave, REG_GCONF, config, 0);
        } else if i < 22 {
            lemma_read_answer(slave, REG_GCONF, config, i - 11);
        } else if i < 30 {
            lemma_read_answer(slave, REG_IFCNT, second, 0);
        } else {
            lemma_read_answer(slave, REG_IFCNT, second, i - 30);
        }
    }
}

} // verus!
