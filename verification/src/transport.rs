//! Display transport adapter: one SPI byte stream plus one data/command
//! select line, multiplexed into the two logical channels a display
//! controller protocol requires.
//!
//! The adapter is pure transport: it never interprets the bytes it
//! carries. Its whole obligation is a bus discipline: the select line
//! must sit at the level declaring a transaction's channel for every
//! byte clocked in that transaction, and must be back at its deasserted
//! idle level between transactions. The adapter records that discipline
//! as a transcript of [`BusEvent`]s, and every contract below pins the
//! exact transcript a call produces, so the discipline is proved rather
//! than assumed.
//!
//! The application performs the physical pin writes and SPI transfers,
//! mirroring the transcript one event at a time, and hands each SPI
//! outcome in; see [`Adapter::send_command`].

use vstd::prelude::*;
use crate::SpiFault;

verus! {

/// The logical channel a byte sequence belongs to.
///
/// The display controller reads the select line's level to decide how to
/// interpret the bytes being clocked: one level declares instruction
/// opcodes, the other declares pixel or bulk-parameter payload.
#[derive(Clone, Copy, PartialEq, Eq, Structural, Debug)]
pub enum Channel {
    /// Controller instruction opcodes and their companion parameters.
    Command,
    /// Pixel payload and bulk parameter data.
    Data,
}

/// One observable event on the display's side of the bus.
#[derive(Clone, Copy, PartialEq, Eq, Structural, Debug)]
pub enum BusEvent {
    /// The select line was driven to the level declaring `Channel`.
    Select(Channel),
    /// The select line was returned to its deasserted idle level.
    Release,
    /// One byte was clocked out while the select line held its level.
    Clock(u8),
}

/// The level the select line rests at, as the transcript records it.
#[derive(Clone, Copy, PartialEq, Eq, Structural, Debug)]
pub enum LineState {
    /// Deasserted: no transaction in flight; the line is caller-inspectable idle.
    Released,
    /// Asserted to the level that declares `Channel`.
    Asserted(Channel),
}

/// The select-line level after `events` has played out, starting from the
/// deasserted level the adapter establishes at construction.
pub open spec fn line_after(events: Seq<BusEvent>) -> LineState
    decreases events.len(),
{
    if events.len() == 0 {
        LineState::Released
    } else {
        match events.last() {
            BusEvent::Select(ch) => LineState::Asserted(ch),
            BusEvent::Release => LineState::Released,
            BusEvent::Clock(_) => line_after(events.drop_last()),
        }
    }
}

/// A transcript keeps the bus discipline when no byte is ever clocked
/// while the select line is deasserted or still transitioning: every
/// `Clock` event happens strictly inside a `Select`/`Release` pair.
pub open spec fn disciplined(events: Seq<BusEvent>) -> bool {
    forall|i: int| 0 <= i < events.len() && events[i] is Clock
        ==> line_after(#[trigger] events.take(i)) is Asserted
}

/// The events that clock `bytes` out, one per byte, in order.
pub open spec fn clocks(bytes: Seq<u8>) -> Seq<BusEvent> {
    bytes.map_values(|b: u8| BusEvent::Clock(b))
}

/// The events one successful transaction on `ch` appends to the
/// transcript: assert the line, clock every byte, release the line.
pub open spec fn transaction(ch: Channel, bytes: Seq<u8>) -> Seq<BusEvent> {
    seq![BusEvent::Select(ch)] + clocks(bytes) + seq![BusEvent::Release]
}

/// The events a failed transaction appends: the line was asserted and
/// released again, and not one byte was clocked under it.
pub open spec fn aborted(ch: Channel) -> Seq<BusEvent> {
    seq![BusEvent::Select(ch), BusEvent::Release]
}

/// Clocked bytes never move the select line: the line after any run of
/// `Clock` events is the line before them.
pub proof fn lemma_line_after_clocks(s: Seq<BusEvent>, bytes: Seq<u8>)
    ensures
        line_after(s + clocks(bytes)) == line_after(s),
    decreases bytes.len(),
{
    if bytes.len() == 0 {
        assert(s + clocks(bytes) =~= s);
    } else {
        assert((s + clocks(bytes)).last() == BusEvent::Clock(bytes.last()));
        assert((s + clocks(bytes)).drop_last() =~= s + clocks(bytes.drop_last()));
        lemma_line_after_clocks(s, bytes.drop_last());
    }
}

/// An event that is not a `Clock` may always be appended without
/// breaking the bus discipline.
pub proof fn lemma_disciplined_push(s: Seq<BusEvent>, e: BusEvent)
    requires
        disciplined(s),
        !(e is Clock),
    ensures
        disciplined(s.push(e)),
{
    let t = s.push(e);
    assert forall|i: int| 0 <= i < t.len() && t[i] is Clock implies line_after(
        #[trigger] t.take(i),
    ) is Asserted by {
        assert(i < s.len());
        assert(t.take(i) =~= s.take(i));
    }
}

/// While the select line is asserted, any run of clocked bytes keeps
/// the bus discipline.
pub proof fn lemma_disciplined_clocks(s: Seq<BusEvent>, bytes: Seq<u8>)
    requires
        disciplined(s),
        line_after(s) is Asserted,
    ensures
        disciplined(s + clocks(bytes)),
{
    let t = s + clocks(bytes);
    assert forall|i: int| 0 <= i < t.len() && t[i] is Clock implies line_after(
        #[trigger] t.take(i),
    ) is Asserted by {
        if i < s.len() {
            assert(t.take(i) =~= s.take(i));
        } else {
            assert(t.take(i) =~= s + clocks(bytes.take(i - s.len())));
            lemma_line_after_clocks(s, bytes.take(i - s.len()));
        }
    }
}

/// Within one successful transaction, byte `k` of the payload stands at
/// transcript position `prefix.len() + 1 + k`, and the select line holds
/// the transaction's channel level while it is clocked.
pub proof fn lemma_transaction_discipline(prefix: Seq<BusEvent>, ch: Channel, bytes: Seq<u8>, k: int)
    requires
        0 <= k < bytes.len(),
    ensures
        ({
            let t = prefix + transaction(ch, bytes);
            let p = prefix.len() + 1 + k;
            t[p] == BusEvent::Clock(bytes[k]) && line_after(t.take(p)) == LineState::Asserted(ch)
        }),
{
    let t = prefix + transaction(ch, bytes);
    let p = prefix.len() + 1 + k;
    assert(t.take(p) =~= prefix.push(BusEvent::Select(ch)) + clocks(bytes.take(k)));
    lemma_line_after_clocks(prefix.push(BusEvent::Select(ch)), bytes.take(k));
}

/// The whole select-line discipline over a command transaction followed
/// by a data transaction, exactly as [`Adapter::send_command`] and
/// [`Adapter::send_data`] record them: the line holds the command level
/// for precisely the bytes of the first transaction and the data level
/// for precisely the bytes of the second, it rests deasserted between
/// the two and after both, and — given a disciplined past — no byte of
/// the whole transcript is ever clocked at a released or transitional
/// line.
pub proof fn lemma_command_then_data(prefix: Seq<BusEvent>, cmds: Seq<u8>, data: Seq<u8>)
    requires
        disciplined(prefix),
        line_after(prefix) == LineState::Released,
    ensures
        ({
            let t = prefix + transaction(Channel::Command, cmds) + transaction(
                Channel::Data,
                data,
            );
            let c0 = prefix.len() + 1;
            let d0 = prefix.len() + cmds.len() + 3;
            &&& forall|k: int|
                0 <= k < cmds.len() ==> t[c0 + k] == BusEvent::Clock(cmds[k]) && line_after(
                    #[trigger] t.take(c0 + k),
                ) == LineState::Asserted(Channel::Command)
            &&& forall|k: int|
                0 <= k < data.len() ==> t[d0 + k] == BusEvent::Clock(data[k]) && line_after(
                    #[trigger] t.take(d0 + k),
                ) == LineState::Asserted(Channel::Data)
            &&& line_after(t.take(prefix.len() + cmds.len() + 2 as int)) == LineState::Released
            &&& line_after(t) == LineState::Released
            &&& disciplined(t)
        }),
{
    let first = prefix + transaction(Channel::Command, cmds);
    let t = first + transaction(Channel::Data, data);
    let c0 = prefix.len() + 1;
    let d0 = prefix.len() + cmds.len() + 3;
    assert(t =~= prefix + transaction(Channel::Command, cmds) + transaction(Channel::Data, data));
    assert forall|k: int| 0 <= k < cmds.len() implies t[c0 + k] == BusEvent::Clock(cmds[k])
        && line_after(#[trigger] t.take(c0 + k)) == LineState::Asserted(Channel::Command) by {
        lemma_transaction_discipline(prefix, Channel::Command, cmds, k);
        let s = prefix + transaction(Channel::Command, cmds);
        assert(t.take(c0 + k) =~= s.take(c0 + k));
    }
    assert forall|k: int| 0 <= k < data.len() implies t[d0 + k] == BusEvent::Clock(data[k])
        && line_after(#[trigger] t.take(d0 + k)) == LineState::Asserted(Channel::Data) by {
        lemma_transaction_discipline(first, Channel::Data, data, k);
        assert(first.len() + 1 + k == d0 + k);
    }
    assert(t.take(prefix.len() + cmds.len() + 2 as int) =~= first);
    assert(first.last() == BusEvent::Release);
    assert(t.last() == BusEvent::Release);
    lemma_disciplined_push(prefix, BusEvent::Select(Channel::Command));
    lemma_disciplined_clocks(prefix.push(BusEvent::Select(Channel::Command)), cmds);
    assert(prefix.push(BusEvent::Select(Channel::Command)) + clocks(cmds) =~= prefix + (seq![
        BusEvent::Select(Channel::Command),
    ] + clocks(cmds)));
    lemma_line_after_clocks(prefix.push(BusEvent::Select(Channel::Command)), cmds);
    lemma_disciplined_push(prefix.push(BusEvent::Select(Channel::Command)) + clocks(cmds), BusEvent::Release);
    assert(first =~= (prefix.push(BusEvent::Select(Channel::Command)) + clocks(cmds)).push(
        BusEvent::Release,
    ));
    assert(disciplined(first));
    lemma_disciplined_push(first, BusEvent::Select(Channel::Data));
    lemma_disciplined_clocks(first.push(BusEvent::Select(Channel::Data)), data);
    lemma_line_after_clocks(first.push(BusEvent::Select(Channel::Data)), data);
    lemma_disciplined_push(first.push(BusEvent::Select(Channel::Data)) + clocks(data), BusEvent::Release);
    assert(t =~= (first.push(BusEvent::Select(Channel::Data)) + clocks(data)).push(
        BusEvent::Release,
    ));
}

/// The display transport adapter: the state of the data/command select
/// line it exclusively owns, and the transcript of every bus event since
/// construction.
///
/// The adapter is not reentrant: each call runs one transaction to
/// completion, and a new one may begin only once the line is back at its
/// deasserted idle level. External serialization of callers is the
/// owning application's business.
pub struct Adapter {
    line: LineState,
    events: Vec<BusEvent>,
}

impl Adapter {
    /// Everything that has happened on the display's side of the bus
    /// since construction, in order.
    pub closed spec fn transcript(self) -> Seq<BusEvent> {
        self.events@
    }

    /// The level the select line rests at now.
    pub closed spec fn line_state(self) -> LineState {
        self.line
    }

    /// The adapter's invariant: the recorded line level is the one the
    /// transcript ends on, and the transcript keeps the bus discipline —
    /// no byte was ever clocked while the line was deasserted.
    pub open spec fn wf(self) -> bool {
        &&& self.line_state() == line_after(self.transcript())
        &&& disciplined(self.transcript())
    }

    /// Bind a fresh adapter: empty transcript, select line deasserted.
    /// The SPI device and the physical pin stay with the application,
    /// which mirrors the transcript onto them event by event.
    pub fn new() -> (a: Adapter)
        ensures
            a.wf(),
            a.transcript() == Seq::<BusEvent>::empty(),
            a.line_state() == LineState::Released,
    {
        Adapter { line: LineState::Released, events: Vec::new() }
    }

    /// The select line's current level, for the caller to inspect.
    pub fn line_level(&self) -> (l: LineState)
        ensures
            l == self.line_state(),
    {
        self.line
    }

    /// The recorded transcript, for the caller to inspect or mirror.
    pub fn events(&self) -> (e: &Vec<BusEvent>)
        ensures
            e@ == self.transcript(),
    {
        &self.events
    }

    /// Begin a transaction: drive the select line to the level that
    /// declares `channel`. No byte may be clocked before this has
    /// settled, and the line must not move again until the transaction
    /// is over.
    pub fn begin(&mut self, channel: Channel)
        requires
            old(self).wf(),
            old(self).line_state() == LineState::Released,
        ensures
            final(self).wf(),
            final(self).transcript() == old(self).transcript().push(BusEvent::Select(channel)),
            final(self).line_state() == LineState::Asserted(channel),
    {
        proof {
            lemma_disciplined_push(self.events@, BusEvent::Select(channel));
        }
        self.events.push(BusEvent::Select(channel));
        self.line = LineState::Asserted(channel);
    }

    /// Record one blocking SPI write of `bytes` and its outcome, as the
    /// application performed it while the line was asserted. On success
    /// every byte is recorded as clocked under the asserted level; on a
    /// fault nothing is recorded and the fault is handed back verbatim —
    /// the adapter never retries.
    pub fn transfer(&mut self, bytes: &Vec<u8>, outcome: Result<(), SpiFault>) -> (r: Result<
        (),
        SpiFault,
    >)
        requires
            old(self).wf(),
            old(self).line_state() is Asserted,
        ensures
            final(self).wf(),
            final(self).line_state() == old(self).line_state(),
            match outcome {
                Ok(_) => final(self).transcript() == old(self).transcript() + clocks(bytes@) && r
                    is Ok,
                Err(f) => final(self).transcript() == old(self).transcript() && r == Err::<
                    (),
                    SpiFault,
                >(f),
            },
    {
        match outcome {
            Err(f) => Err(f),
            Ok(_) => {
                let mut k: usize = 0;
                while k < bytes.len()
                    invariant
                        k <= bytes.len(),
                        self.line == old(self).line,
                        self.events@ == old(self).events@ + clocks(bytes@.take(k as int)),
                    decreases bytes.len() - k,
                {
                    self.events.push(BusEvent::Clock(bytes[k]));
                    proof {
                        assert(self.events@ =~= old(self).events@ + clocks(
                            bytes@.take(k as int + 1),
                        ));
                    }
                    k += 1;
                }
                proof {
                    assert(bytes@.take(bytes@.len() as int) =~= bytes@);
                    lemma_line_after_clocks(old(self).events@, bytes@);
                    lemma_disciplined_clocks(old(self).events@, bytes@);
                }
                Ok(())
            },
        }
    }

    /// End the transaction: return the select line to its deasserted
    /// idle level, leaving it caller-inspectable between transactions.
    pub fn finish(&mut self)
        requires
            old(self).wf(),
            old(self).line_state() is Asserted,
        ensures
            final(self).wf(),
            final(self).transcript() == old(self).transcript().push(BusEvent::Release),
            final(self).line_state() == LineState::Released,
    {
        proof {
            lemma_disciplined_push(self.events@, BusEvent::Release);
        }
        self.events.push(BusEvent::Release);
        self.line = LineState::Released;
    }

    /// One whole transaction on `channel`: assert the line, record the
    /// blocking SPI write's outcome, release the line. On a fault, the
    /// fault comes back verbatim and the line is still released.
    fn send(&mut self, channel: Channel, bytes: &Vec<u8>, outcome: Result<(), SpiFault>) -> (r:
        Result<(), SpiFault>)
        requires
            old(self).wf(),
            old(self).line_state() == LineState::Released,
        ensures
            final(self).wf(),
            final(self).line_state() == LineState::Released,
            match outcome {
                Ok(_) => final(self).transcript() == old(self).transcript() + transaction(
                    channel,
                    bytes@,
                ) && r is Ok,
                Err(f) => final(self).transcript() == old(self).transcript() + aborted(channel)
                    && r == Err::<(), SpiFault>(f),
            },
    {
        self.begin(channel);
        let r = self.transfer(bytes, outcome);
        self.finish();
        proof {
            if outcome is Ok {
                assert(self.events@ =~= old(self).events@ + transaction(channel, bytes@));
            } else {
                assert(self.events@ =~= old(self).events@ + aborted(channel));
            }
        }
        r
    }

    /// Send controller instruction bytes: one transaction with the
    /// select line at the command level for its entire duration.
    ///
    /// `outcome` is what the application's blocking SPI write returned;
    /// a fault is propagated verbatim, never retried, and the select
    /// line is left deasserted either way.
    pub fn send_command(&mut self, bytes: &Vec<u8>, outcome: Result<(), SpiFault>) -> (r: Result<
        (),
        SpiFault,
    >)
        requires
            old(self).wf(),
            old(self).line_state() == LineState::Released,
        ensures
            final(self).wf(),
            final(self).line_state() == LineState::Released,
            match outcome {
                Ok(_) => final(self).transcript() == old(self).transcript() + transaction(
                    Channel::Command,
                    bytes@,
                ) && r is Ok,
                Err(f) => final(self).transcript() == old(self).transcript() + aborted(
                    Channel::Command,
                ) && r == Err::<(), SpiFault>(f),
            },
    {
        self.send(Channel::Command, bytes, outcome)
    }

    /// Send pixel or bulk-parameter bytes: one transaction with the
    /// select line at the data level for its entire duration. Same
    /// fault handling as [`Adapter::send_command`].
    pub fn send_data(&mut self, bytes: &Vec<u8>, outcome: Result<(), SpiFault>) -> (r: Result<
        (),
        SpiFault,
    >)
        requires
            old(self).wf(),
            old(self).line_state() == LineState::Released,
        ensures
            final(self).wf(),
            final(self).line_state() == LineState::Released,
            match outcome {
                Ok(_) => final(self).transcript() == old(self).transcript() + transaction(
                    Channel::Data,
                    bytes@,
                ) && r is Ok,
                Err(f) => final(self).transcript() == old(self).transcript() + aborted(
                    Channel::Data,
                ) && r == Err::<(), SpiFault>(f),
            },
    {
        self.send(Channel::Data, bytes, outcome)
    }
}

} // verus!
