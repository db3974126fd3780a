//! The client: it sends one command at a time, takes in what the module
//! sends back, and tells answers, events and noise apart.

use vstd::prelude::*;
use crate::client::{published, ChannelModel, Config, UrcChannel};
use crate::codec::{encode, encoding, Command, CommandModel};
use crate::command::Urc;
use crate::error::{Error, ErrorModel, FramingError};
use crate::exchange::{
    dispatch, dispatched, expired, opened, raise, raised, slot, Disposition, DispositionModel,
    Pending, PendingModel, Response, ResponseModel,
};
use crate::ingress::{fresh, step, Frame, FrameModel, Ingress, IngressModel};

verus! {

/// What the client reports of the bytes it is fed.
#[derive(Debug, PartialEq, Eq)]
pub enum Event {
    /// The pending exchange passed its deadline. The client is idle again.
    TimedOut,
    /// The pending exchange ended with its response.
    Resolved(Response),
    /// The pending exchange ended with an error.
    Failed(Error),
    /// A data line was kept for the response of the pending exchange.
    Accepted,
    /// An event of the module; it was handed to every subscriber.
    Urc(Urc),
    /// A line for nobody; it was dropped.
    Noise,
    /// The bytes did not frame, with no exchange pending that it could fail.
    Fault(FramingError),
}

/// `Event` as plain values.
pub enum EventModel {
    TimedOut,
    Resolved(ResponseModel),
    Failed(ErrorModel),
    Accepted,
    Urc(Urc),
    Noise,
    Fault(FramingError),
}

impl View for Event {
    type V = EventModel;

    open spec fn view(&self) -> EventModel {
        match *self {
            Event::TimedOut => EventModel::TimedOut,
            Event::Resolved(response) => EventModel::Resolved(response@),
            Event::Failed(error) => EventModel::Failed(error@),
            Event::Accepted => EventModel::Accepted,
            Event::Urc(urc) => EventModel::Urc(urc),
            Event::Noise => EventModel::Noise,
            Event::Fault(kind) => EventModel::Fault(kind),
        }
    }
}

impl DeepView for Event {
    type V = EventModel;

    open spec fn deep_view(&self) -> EventModel {
        self@
    }
}

/// The client as plain values.
pub struct CalypsoModel {
    pub ingress: IngressModel,
    /// The exchange in flight; `None` while the client is idle.
    pub pending: Option<PendingModel>,
    /// The number of exchanges that were given up before their terminator
    /// came, and whose terminator may still come.
    pub owed: usize,
    pub channel: ChannelModel,
}

/// An idle client with an empty buffer and no subscriber.
pub open spec fn initial(config: Config) -> CalypsoModel {
    CalypsoModel {
        ingress: fresh(config.ingress_capacity as nat),
        pending: None,
        owed: 0,
        channel: ChannelModel {
            queues: Seq::empty(),
            capacity: config.urc_capacity as nat,
            subscribers: config.urc_subscribers as nat,
        },
    }
}

/// What the passing of time does: an exchange whose deadline has passed at
/// `now` is given up, and the client is idle again. The terminator of that
/// exchange is owed from then on: when it comes, it is noise, whoever waits.
pub open spec fn polled(state: CalypsoModel, now: u64) -> (CalypsoModel, bool) {
    match state.pending {
        Some(p) => if expired(p, now) {
            (CalypsoModel { pending: None, owed: raised(state.owed), ..state }, true)
        } else {
            (state, false)
        },
        None => (state, false),
    }
}

/// What sending `command` at `now` does: the client afterwards, and the
/// bytes to write or the reason why nothing is written.
///
/// Time passes first: an exchange whose deadline has passed at `now` is
/// given up, and does not stand in the way. While an exchange is pending the
/// client is not ready. A command that cannot be encoded opens no exchange.
/// Otherwise the client waits for the answer, up to the command's timeout
/// from `now`.
pub open spec fn sent(state: CalypsoModel, command: CommandModel, now: u64) -> (
    CalypsoModel,
    Result<Seq<u8>, ErrorModel>,
) {
    let ready = polled(state, now).0;
    if ready.pending is Some {
        (ready, Err(ErrorModel::NotReady))
    } else {
        match encoding(command) {
            Ok(line) => (
                CalypsoModel { pending: Some(opened(command, now)), ..ready },
                Ok(line),
            ),
            Err(e) => (ready, Err(ErrorModel::Encoding(e))),
        }
    }
}

/// What losing the transport does: the pending exchange, if there is one,
/// fails at once, and the client is idle. What the stream still owed is
/// forgotten with it.
pub open spec fn severed(state: CalypsoModel) -> (CalypsoModel, bool) {
    (CalypsoModel { pending: None, owed: 0, ..state }, state.pending is Some)
}

/// The moment after which the pending exchange times out, held to the range
/// of the clock.
pub open spec fn wake(state: CalypsoModel) -> Option<u64> {
    match state.pending {
        Some(p) => if crate::exchange::deadline(p) > u64::MAX {
            Some(u64::MAX)
        } else {
            Some(crate::exchange::deadline(p) as u64)
        },
        None => None,
    }
}

/// The event that tells what became of a line.
pub open spec fn reported(disposition: DispositionModel) -> EventModel {
    match disposition {
        DispositionModel::Resolved(Ok(response)) => EventModel::Resolved(response),
        DispositionModel::Resolved(Err(error)) => EventModel::Failed(error),
        DispositionModel::Accepted => EventModel::Accepted,
        DispositionModel::Urc(urc) => EventModel::Urc(urc),
        DispositionModel::Noise => EventModel::Noise,
    }
}

/// What a framing fault does at `now`: it fails the pending exchange, or is
/// reported by itself where none is pending or the pending one had timed out
/// already. Bytes that did not frame are nobody's terminator: they lower no
/// count, and only the timeout leaves a terminator owed.
pub open spec fn faulted(state: CalypsoModel, kind: FramingError, now: u64) -> (
    CalypsoModel,
    Seq<EventModel>,
) {
    match state.pending {
        Some(p) => if expired(p, now) {
            (
                CalypsoModel { pending: None, owed: raised(state.owed), ..state },
                seq![EventModel::TimedOut, EventModel::Fault(kind)],
            )
        } else {
            (
                CalypsoModel { pending: None, ..state },
                seq![EventModel::Failed(ErrorModel::Framing(kind))],
            )
        },
        None => (state, seq![EventModel::Fault(kind)]),
    }
}

/// What one frame does at `now`: the client afterwards and the events to
/// report, a timeout first where the pending exchange had passed its
/// deadline.
pub open spec fn framed(state: CalypsoModel, frame: FrameModel, now: u64) -> (
    CalypsoModel,
    Seq<EventModel>,
) {
    match frame {
        FrameModel::Line(line) => {
            let (pending, owed, timed_out, disposition) = dispatched(
                state.pending,
                state.owed,
                line,
                now,
            );
            let channel = match disposition {
                DispositionModel::Urc(urc) => published(state.channel, urc),
                _ => state.channel,
            };
            let events = if timed_out {
                seq![EventModel::TimedOut, reported(disposition)]
            } else {
                seq![reported(disposition)]
            };
            (CalypsoModel { pending, owed, channel, ..state }, events)
        },
        FrameModel::Overflow => faulted(state, FramingError::Overflow, now),
        FrameModel::Malformed => faulted(state, FramingError::MalformedTerminator, now),
    }
}

/// What feeding `bytes` at `now` does: the client afterwards and the events
/// to report, in the order of the lines that caused them.
pub open spec fn fed(state: CalypsoModel, bytes: Seq<u8>, now: u64) -> (
    CalypsoModel,
    Seq<EventModel>,
)
    decreases bytes.len(),
{
    if bytes.len() == 0 {
        (state, Seq::empty())
    } else {
        let (before, events) = fed(state, bytes.drop_last(), now);
        let (ingress, frame) = step(before.ingress, bytes.last());
        let taken = CalypsoModel { ingress, ..before };
        match frame {
            Some(f) => (framed(taken, f, now).0, events + framed(taken, f, now).1),
            None => (taken, events),
        }
    }
}

/// The client for one Calypso module.
#[derive(Debug)]
pub struct Calypso {
    ingress: Ingress,
    pending: Option<Pending>,
    owed: usize,
    channel: UrcChannel,
}

impl View for Calypso {
    type V = CalypsoModel;

    closed spec fn view(&self) -> CalypsoModel {
        CalypsoModel {
            ingress: self.ingress@,
            pending: slot(self.pending),
            owed: self.owed,
            channel: self.channel@,
        }
    }
}

impl Calypso {
    /// An idle client.
    pub fn new(config: Config) -> (out: Calypso)
        ensures
            out@ == initial(config),
    {
        Calypso {
            ingress: Ingress::new(config.ingress_capacity),
            pending: None,
            owed: 0,
            channel: UrcChannel::new(config.urc_capacity, config.urc_subscribers),
        }
    }

    /// Whether an exchange is in flight.
    pub fn is_awaiting(&self) -> (out: bool)
        ensures
            out == (self@.pending is Some),
    {
        self.pending.is_some()
    }

    /// Opens an exchange: encodes `command` and gives the bytes to write to
    /// the module. From then on the client waits for the answer, until the
    /// command's timeout has passed from `now`, given in milliseconds.
    ///
    /// An exchange whose deadline has passed at `now` is given up first.
    /// Fails with `NotReady` while an exchange is in flight, and with the
    /// encoding error where the command has no line; either way no exchange
    /// is opened and nothing is to be written.
    pub fn send(&mut self, command: &Command, now: u64) -> (out: Result<Vec<u8>, Error>)
        ensures
            final(self)@ == sent(old(self)@, command@, now).0,
            match sent(old(self)@, command@, now).1 {
                Ok(line) => out is Ok && out.unwrap()@ == line,
                Err(e) => out is Err && out.unwrap_err()@ == e,
            },
    {
        self.poll(now);
        if self.pending.is_some() {
            return Err(Error::NotReady);
        }
        match encode(command) {
            Ok(line) => {
                self.pending = Some(Pending::open(command, now));
                Ok(line)
            },
            Err(e) => Err(Error::Encoding(e)),
        }
    }

    /// Gives up the pending exchange where its deadline has passed at `now`,
    /// and says whether it did.
    pub fn poll(&mut self, now: u64) -> (out: bool)
        ensures
            final(self)@ == polled(old(self)@, now).0,
            out == polled(old(self)@, now).1,
    {
        let timed_out = match &self.pending {
            Some(p) => p.is_expired(now),
            None => false,
        };
        if timed_out {
            self.pending = None;
            self.owed = raise(self.owed);
        }
        timed_out
    }

    /// The number of exchanges that were given up before their terminator
    /// came. The next terminator lines, as many as that, are noise.
    pub fn owed(&self) -> (out: usize)
        ensures
            out == self@.owed,
    {
        self.owed
    }

    /// Tells the client that the transport failed. An exchange in flight
    /// fails with `Transport` at once, so that nobody waits for an answer that
    /// cannot come; an idle client has nothing to fail.
    pub fn transport_lost(&mut self) -> (out: Option<Error>)
        ensures
            final(self)@ == severed(old(self)@).0,
            severed(old(self)@).1 ==> out is Some && out.unwrap()@ == ErrorModel::Transport,
            !severed(old(self)@).1 ==> out is None,
    {
        let pending = self.pending.take();
        self.owed = 0;
        match pending {
            Some(_) => Some(Error::Transport),
            None => None,
        }
    }

    /// The moment, in milliseconds, after which the pending exchange times
    /// out; `None` while the client is idle.
    pub fn deadline(&self) -> (out: Option<u64>)
        ensures
            out == wake(self@),
    {
        match &self.pending {
            Some(p) => Some(p.last_moment()),
            None => None,
        }
    }

    /// Handles a framing fault.
    fn fault(&mut self, kind: FramingError, now: u64, events: &mut Vec<Event>)
        ensures
            final(self)@ == faulted(old(self)@, kind, now).0,
            final(events).deep_view() == old(events).deep_view() + faulted(old(self)@, kind, now).1,
    {
        let ghost before = events.deep_view();
        let pending = self.pending.take();
        match pending {
            Some(p) => {
                if p.is_expired(now) {
                    self.owed = raise(self.owed);
                    events.push(Event::TimedOut);
                    events.push(Event::Fault(kind));
                    assert(events.deep_view() =~= before + seq![
                        EventModel::TimedOut,
                        EventModel::Fault(kind),
                    ]);
                } else {
                    events.push(Event::Failed(Error::Framing(kind)));
                    assert(events.deep_view() =~= before + seq![
                        EventModel::Failed(ErrorModel::Framing(kind)),
                    ]);
                }
            },
            None => {
                events.push(Event::Fault(kind));
                assert(events.deep_view() =~= before + seq![EventModel::Fault(kind)]);
            },
        }
    }

    /// Handles one frame.
    fn frame(&mut self, frame: Frame, now: u64, events: &mut Vec<Event>)
        ensures
            final(self)@ == framed(old(self)@, frame@, now).0,
            final(events).deep_view() == old(events).deep_view() + framed(
                old(self)@,
                frame@,
                now,
            ).1,
    {
        let ghost before = events.deep_view();
        match frame {
            Frame::Line(line) => {
                let pending = self.pending.take();
                let (next, owed, timed_out, disposition) = dispatch(
                    pending,
                    self.owed,
                    line.as_slice(),
                    now,
                );
                self.pending = next;
                self.owed = owed;
                if timed_out {
                    events.push(Event::TimedOut);
                }
                let ghost middle = events.deep_view();
                assert(middle =~= if timed_out {
                    before.push(EventModel::TimedOut)
                } else {
                    before
                });
                let event = match disposition {
                    Disposition::Resolved(Ok(response)) => Event::Resolved(response),
                    Disposition::Resolved(Err(error)) => Event::Failed(error),
                    Disposition::Accepted => Event::Accepted,
                    Disposition::Urc(urc) => {
                        self.channel.publish(urc);
                        Event::Urc(urc)
                    },
                    Disposition::Noise => Event::Noise,
                };
                let ghost shown = event@;
                events.push(event);
                assert(events.deep_view() =~= middle.push(shown));
                assert(events.deep_view() =~= before + framed(old(self)@, frame@, now).1);
            },
            Frame::Overflow => {
                self.fault(FramingError::Overflow, now, events);
            },
            Frame::Malformed => {
                self.fault(FramingError::MalformedTerminator, now, events);
            },
        }
    }

    /// Takes in bytes that the module sent, as they were read at `now`, given
    /// in milliseconds. Lines are put together across calls; each whole line
    /// goes to the pending exchange first, then to the events, and is dropped
    /// where neither takes it. Gives what happened, in order.
    pub fn feed(&mut self, bytes: &[u8], now: u64) -> (out: Vec<Event>)
        ensures
            final(self)@ == fed(old(self)@, bytes@, now).0,
            out.deep_view() == fed(old(self)@, bytes@, now).1,
    {
        let mut events: Vec<Event> = Vec::new();
        let mut i: usize = 0;
        assert(bytes@.take(0) =~= Seq::<u8>::empty());
        assert(events.deep_view() =~= Seq::<EventModel>::empty());
        while i < bytes.len()
            invariant
                0 <= i <= bytes.len(),
                self@ == fed(old(self)@, bytes@.take(i as int), now).0,
                events.deep_view() == fed(old(self)@, bytes@.take(i as int), now).1,
            decreases bytes.len() - i,
        {
            proof {
                let part = bytes@.take(i + 1);
                assert(part.drop_last() =~= bytes@.take(i as int));
                assert(part.last() == bytes@[i as int]);
            }
            match self.ingress.push(bytes[i]) {
                Some(frame) => {
                    self.frame(frame, now, &mut events);
                },
                None => {},
            }
            i = i + 1;
        }
        assert(bytes@.take(bytes.len() as int) =~= bytes@);
        events
    }

    /// Adds a subscriber for the module's events and gives its number, or
    /// `None` where no more are allowed.
    pub fn subscribe(&mut self) -> (out: Option<usize>)
        ensures
            old(self)@.channel.queues.len() < old(self)@.channel.subscribers ==> out == Some(
                old(self)@.channel.queues.len() as usize,
            ) && final(self)@ == (CalypsoModel {
                channel: ChannelModel {
                    queues: old(self)@.channel.queues.push(Seq::empty()),
                    ..old(self)@.channel
                },
                ..old(self)@
            }),
            old(self)@.channel.queues.len() >= old(self)@.channel.subscribers ==> out is None
                && final(self)@ == old(self)@,
    {
        self.channel.subscribe()
    }

    /// Takes the oldest event that waits for `subscriber`, if there is one.
    pub fn next_urc(&mut self, subscriber: usize) -> (out: Option<Urc>)
        ensures
            subscriber < old(self)@.channel.queues.len()
                && old(self)@.channel.queues[subscriber as int].len() > 0 ==> out == Some(
                old(self)@.channel.queues[subscriber as int][0],
            ) && final(self)@ == (CalypsoModel {
                channel: ChannelModel {
                    queues: old(self)@.channel.queues.update(
                        subscriber as int,
                        old(self)@.channel.queues[subscriber as int].skip(1),
                    ),
                    ..old(self)@.channel
                },
                ..old(self)@
            }),
            !(subscriber < old(self)@.channel.queues.len()
                && old(self)@.channel.queues[subscriber as int].len() > 0) ==> out is None
                && final(self)@ == old(self)@,
    {
        self.channel.next(subscriber)
    }
}

/// Single in flight: while an exchange is pending and its deadline has not
/// passed, sending fails with `NotReady`, whatever the command, and leaves
/// the client and its pending exchange as they were.
pub proof fn lemma_single_in_flight(state: CalypsoModel, command: CommandModel, now: u64)
    requires
        state.pending is Some,
        !expired(state.pending.unwrap(), now),
    ensures
        sent(state, command, now) == (state, Err::<Seq<u8>, ErrorModel>(ErrorModel::NotReady)),
{
}

/// A command is written in full or not at all: what sending hands out is the
/// command's line, and only then does the client wait. Where nothing is
/// written, nothing has happened but the passing of time.
pub proof fn lemma_sent_or_unchanged(state: CalypsoModel, command: CommandModel, now: u64)
    ensures
        sent(state, command, now).1 is Ok ==> polled(state, now).0.pending is None && encoding(
            command,
        ) == Ok::<Seq<u8>, crate::error::EncodingError>(sent(state, command, now).1->Ok_0)
            && sent(state, command, now).0.pending == Some(opened(command, now)),
        sent(state, command, now).1 is Err ==> sent(state, command, now).0 == polled(state, now).0,
{
}

/// A deadline that has passed does not stand in the way of the next
/// command: the exchange is given up, and the command is sent as by an idle
/// client.
pub proof fn lemma_sent_after_deadline(state: CalypsoModel, command: CommandModel, now: u64)
    requires
        state.pending is Some,
        expired(state.pending.unwrap(), now),
    ensures
        !(sent(state, command, now).1 == Err::<Seq<u8>, ErrorModel>(ErrorModel::NotReady)),
        sent(state, command, now) == sent(polled(state, now).0, command, now),
        polled(state, now).0.pending is None,
{
}

/// A stale terminator spares the newer exchange, seen from the client: an
/// exchange times out, a new command is sent, and then the terminator that
/// the first exchange was owed comes, before the new deadline. The line is
/// noise. The new exchange still waits, as it was opened, and nothing is
/// owed any more than before.
pub proof fn lemma_stale_terminator_spares(
    state: CalypsoModel,
    command: CommandModel,
    line: Seq<u8>,
    gave_up: u64,
    sent_at: u64,
    now: u64,
)
    requires
        state.pending is Some,
        expired(state.pending.unwrap(), gave_up),
        state.owed < usize::MAX,
        encoding(command) is Ok,
        !expired(opened(command, sent_at), now),
        crate::response::is_terminator(line),
    ensures
        ({
            let idle = polled(state, gave_up).0;
            let waiting = sent(idle, command, sent_at).0;
            let after = framed(waiting, FrameModel::Line(line), now);
            &&& waiting.pending == Some(opened(command, sent_at))
            &&& after.1 == seq![EventModel::Noise]
            &&& after.0.pending == Some(opened(command, sent_at))
            &&& after.0.owed == state.owed
            &&& after.0.channel == state.channel
        }),
{
}

/// What a run of frames does at `now`, one after the other.
pub open spec fn handled(state: CalypsoModel, frames: Seq<FrameModel>, now: u64) -> (
    CalypsoModel,
    Seq<EventModel>,
)
    decreases frames.len(),
{
    if frames.len() == 0 {
        (state, Seq::empty())
    } else {
        let (before, events) = handled(state, frames.drop_last(), now);
        (framed(before, frames.last(), now).0, events + framed(before, frames.last(), now).1)
    }
}

/// Feeding bytes is framing them and handling the frames in their order:
/// the ingestion buffer goes its way whatever the lines hold, and nothing
/// but a whole frame reaches the exchange or the subscribers.
pub proof fn lemma_fed_by_frames(state: CalypsoModel, bytes: Seq<u8>, now: u64)
    ensures
        fed(state, bytes, now).0.ingress == crate::ingress::run(state.ingress, bytes).0,
        fed(state, bytes, now).1 == handled(
            state,
            crate::ingress::run(state.ingress, bytes).1,
            now,
        ).1,
        fed(state, bytes, now).0 == (CalypsoModel {
            ingress: crate::ingress::run(state.ingress, bytes).0,
            ..handled(state, crate::ingress::run(state.ingress, bytes).1, now).0
        }),
    decreases bytes.len(),
{
    if bytes.len() > 0 {
        let shorter = bytes.drop_last();
        lemma_fed_by_frames(state, shorter, now);
        let (before, events) = fed(state, shorter, now);
        let (buffer, frames) = crate::ingress::run(state.ingress, shorter);
        let (ingress, frame) = step(before.ingress, bytes.last());
        let taken = CalypsoModel { ingress, ..before };
        lemma_handled_keeps_ingress(state, frames, now);
        match frame {
            Some(f) => {
                let all = frames.push(f);
                assert(all.drop_last() =~= frames);
                assert(all.last() == f);
                let apart = handled(state, frames, now).0;
                lemma_framed_apart(apart, taken, f, now);
            },
            None => {},
        }
    }
}

/// Handling frames leaves the ingestion buffer alone.
pub proof fn lemma_handled_keeps_ingress(state: CalypsoModel, frames: Seq<FrameModel>, now: u64)
    ensures
        handled(state, frames, now).0.ingress == state.ingress,
    decreases frames.len(),
{
    if frames.len() > 0 {
        lemma_handled_keeps_ingress(state, frames.drop_last(), now);
    }
}

/// What a frame does depends on the exchange and the subscribers, not on
/// what the ingestion buffer holds.
pub proof fn lemma_framed_apart(one: CalypsoModel, other: CalypsoModel, frame: FrameModel, now: u64)
    requires
        one.pending == other.pending,
        one.owed == other.owed,
        one.channel == other.channel,
    ensures
        framed(one, frame, now).1 == framed(other, frame, now).1,
        framed(one, frame, now).0.pending == framed(other, frame, now).0.pending,
        framed(one, frame, now).0.owed == framed(other, frame, now).0.owed,
        framed(one, frame, now).0.channel == framed(other, frame, now).0.channel,
        framed(one, frame, now).0.ingress == one.ingress,
        framed(other, frame, now).0.ingress == other.ingress,
{
}

/// Overflow recovery, seen from the client: bytes beyond what the buffer
/// holds, with no line feed among them, are reported as exactly one framing
/// error, which fails the pending exchange where one is in flight. What is
/// left of that line is dropped with its line feed, and the line that
/// follows is dispatched as any other, to a client that is idle.
pub proof fn lemma_client_overflow_recovery(
    state: CalypsoModel,
    junk: Seq<u8>,
    content: Seq<u8>,
    now: u64,
)
    requires
        state.ingress == fresh(state.ingress.capacity),
        junk.len() > state.ingress.capacity,
        forall|i: int| 0 <= i < junk.len() ==> junk[i] != crate::wire::LF,
        content.len() + 1 <= state.ingress.capacity,
        forall|i: int| 0 <= i < content.len() ==> content[i] != crate::wire::LF,
    ensures
        fed(state, junk, now).1 == match state.pending {
            Some(p) => if expired(p, now) {
                seq![EventModel::TimedOut, EventModel::Fault(FramingError::Overflow)]
            } else {
                seq![EventModel::Failed(ErrorModel::Framing(FramingError::Overflow))]
            },
            None => seq![EventModel::Fault(FramingError::Overflow)],
        },
        fed(
            state,
            junk + seq![crate::wire::LF] + content + seq![crate::wire::CR, crate::wire::LF],
            now,
        ).1 == fed(state, junk, now).1 + seq![reported(crate::exchange::unsolicited(content))],
        fed(
            state,
            junk + seq![crate::wire::LF] + content + seq![crate::wire::CR, crate::wire::LF],
            now,
        ).0 == framed(faulted(state, FramingError::Overflow, now).0, FrameModel::Line(content), now).0,
        fed(
            state,
            junk + seq![crate::wire::LF] + content + seq![crate::wire::CR, crate::wire::LF],
            now,
        ).0.pending is None,
{
    let capacity = state.ingress.capacity;
    crate::ingress::lemma_overflow_recovery(capacity, junk, content);
    let whole = junk + seq![crate::wire::LF] + content + seq![crate::wire::CR, crate::wire::LF];
    lemma_fed_by_frames(state, junk, now);
    lemma_fed_by_frames(state, whole, now);
    let one = seq![FrameModel::Overflow];
    let two = seq![FrameModel::Overflow, FrameModel::Line(content)];
    reveal_with_fuel(handled, 3);
    assert(one.drop_last() =~= Seq::<FrameModel>::empty());
    assert(two.drop_last() =~= one);
    let first = faulted(state, FramingError::Overflow, now);
    assert(handled(state, one, now).1 =~= first.1);
    assert(handled(state, one, now).0 == first.0);
    assert(first.0.pending is None);
    crate::exchange::lemma_idle_line(first.0.owed, content, now);
    assert(handled(state, two, now).1 =~= first.1 + seq![
        reported(crate::exchange::unsolicited(content)),
    ]);
}

/// Timeout precedence, seen from the client: a line that is put together
/// after the deadline finds the exchange timed out; the client reports the
/// timeout, is idle, and the line is an event or noise.
pub proof fn lemma_late_frame(state: CalypsoModel, line: Seq<u8>, now: u64)
    requires
        state.pending is Some,
        now > crate::exchange::deadline(state.pending.unwrap()),
    ensures
        framed(state, FrameModel::Line(line), now).0.pending is None,
        framed(state, FrameModel::Line(line), now).1 == seq![
            EventModel::TimedOut,
            reported(crate::exchange::unsolicited(line)),
        ],
        !(reported(crate::exchange::unsolicited(line)) is Resolved),
        !(reported(crate::exchange::unsolicited(line)) is Failed),
        !(reported(crate::exchange::unsolicited(line)) is Accepted),
{
    crate::exchange::lemma_late_line(state.pending.unwrap(), state.owed, line, now);
}

/// Whatever is fed, no subscriber's queue outgrows the capacity: a
/// subscriber that does not keep up loses its oldest events and holds
/// nobody up.
pub proof fn lemma_fed_bounded(state: CalypsoModel, bytes: Seq<u8>, now: u64)
    requires
        crate::client::bounded(state.channel),
    ensures
        crate::client::bounded(fed(state, bytes, now).0.channel),
    decreases bytes.len(),
{
    if bytes.len() > 0 {
        lemma_fed_bounded(state, bytes.drop_last(), now);
        let before = fed(state, bytes.drop_last(), now).0;
        let (ingress, frame) = step(before.ingress, bytes.last());
        let taken = CalypsoModel { ingress, ..before };
        match frame {
            Some(FrameModel::Line(line)) => {
                match dispatched(taken.pending, taken.owed, line, now).3 {
                    DispositionModel::Urc(urc) => {
                        crate::client::lemma_published_bounded(taken.channel, urc);
                    },
                    _ => {},
                }
            },
            _ => {},
        }
    }
}

} // verus!
