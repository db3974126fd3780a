//! One exchange: a command that was sent, waiting for the line that ends it.

use vstd::prelude::*;
use vstd::slice::slice_to_vec;
use crate::argument::{Argument, ArgumentModel};
use crate::codec::{Command, FieldKind};
use crate::command::{classification, classify, Urc};
use crate::error::{DecodeError, Error, ErrorModel, FramingError};
use crate::response::{
    decode, decoding, ends_exchange, is_terminator, payload, Decoded, DecodedModel,
};
use crate::wire::starts_with;

verus! {

/// What a command is answered with.
#[derive(Debug, PartialEq, Eq)]
pub enum Response {
    /// Nothing but the success terminator.
    NoData,
    /// The rows of the data lines that came before the success terminator,
    /// in their order.
    Data(Vec<Vec<Argument>>),
}

/// `Response` as plain values.
pub enum ResponseModel {
    NoData,
    Data(Seq<Seq<ArgumentModel>>),
}

impl View for Response {
    type V = ResponseModel;

    open spec fn view(&self) -> ResponseModel {
        match *self {
            Response::NoData => ResponseModel::NoData,
            Response::Data(rows) => ResponseModel::Data(rows.deep_view()),
        }
    }
}

/// The exchange in flight: what its command looks for in a line, when it was
/// sent and how long it may take, and the rows received so far.
#[derive(Debug)]
pub struct Pending {
    token: Vec<u8>,
    shape: Vec<FieldKind>,
    quoting: bool,
    sent_at: u64,
    timeout_ms: u32,
    rows: Vec<Vec<Argument>>,
}

/// `Pending` as plain values.
pub struct PendingModel {
    /// The prefix of the command, with which its data lines begin.
    pub token: Seq<u8>,
    /// The fields of a data line.
    pub shape: Seq<FieldKind>,
    pub quoting: bool,
    /// When the command was sent, in milliseconds.
    pub sent_at: u64,
    pub timeout_ms: u32,
    pub rows: Seq<Seq<ArgumentModel>>,
}

impl View for Pending {
    type V = PendingModel;

    closed spec fn view(&self) -> PendingModel {
        PendingModel {
            token: self.token@,
            shape: self.shape@,
            quoting: self.quoting,
            sent_at: self.sent_at,
            timeout_ms: self.timeout_ms,
            rows: self.rows.deep_view(),
        }
    }
}

/// The exchange slot as plain values: `None` while idle.
pub open spec fn slot(pending: Option<Pending>) -> Option<PendingModel> {
    match pending {
        Some(p) => Some(p@),
        None => None,
    }
}

/// The exchange that sending `command` at `now` opens.
pub open spec fn opened(command: crate::codec::CommandModel, now: u64) -> PendingModel {
    PendingModel {
        token: command.prefix,
        shape: command.shape,
        quoting: command.quoting,
        sent_at: now,
        timeout_ms: command.timeout_ms,
        rows: Seq::empty(),
    }
}

/// The last moment at which a terminator still ends the exchange.
pub open spec fn deadline(pending: PendingModel) -> int {
    pending.sent_at + pending.timeout_ms
}

/// The deadline has passed at `now`.
pub open spec fn expired(pending: PendingModel, now: u64) -> bool {
    now > deadline(pending)
}

/// What the exchange is answered with when its success terminator comes.
pub open spec fn finished(pending: PendingModel) -> ResponseModel {
    if pending.shape.len() == 0 {
        ResponseModel::NoData
    } else {
        ResponseModel::Data(pending.rows)
    }
}

/// What becomes of one received line.
#[derive(Debug, PartialEq, Eq)]
pub enum Disposition {
    /// The line ended the pending exchange, with its response or its error.
    Resolved(Result<Response, Error>),
    /// The line is a data line of the pending exchange and was kept for its
    /// response.
    Accepted,
    /// The line reports an event.
    Urc(Urc),
    /// The line is neither; it is dropped.
    Noise,
}

/// `Disposition` as plain values.
pub enum DispositionModel {
    Resolved(Result<ResponseModel, ErrorModel>),
    Accepted,
    Urc(Urc),
    Noise,
}

impl View for Disposition {
    type V = DispositionModel;

    open spec fn view(&self) -> DispositionModel {
        match *self {
            Disposition::Resolved(Ok(response)) => DispositionModel::Resolved(Ok(response@)),
            Disposition::Resolved(Err(error)) => DispositionModel::Resolved(Err(error@)),
            Disposition::Accepted => DispositionModel::Accepted,
            Disposition::Urc(urc) => DispositionModel::Urc(urc),
            Disposition::Noise => DispositionModel::Noise,
        }
    }
}

/// The line is one that the exchange takes: a terminator, or a line that
/// begins as a data line of its command.
pub open spec fn takes(pending: PendingModel, line: Seq<u8>) -> bool {
    decoding(line, pending.token, pending.shape, pending.quoting) != Err::<
        DecodedModel,
        DecodeError,
    >(DecodeError::Unrecognized)
}

/// What a line that the exchange takes does to it: the exchange that is
/// left, if it goes on, and what became of the line.
///
/// The success terminator ends it with its response, the error terminator
/// with the module's error, at once and whatever data came before. A data
/// line adds its row. A data line or an error line that does not read ends
/// it with a framing error.
pub open spec fn offered(pending: PendingModel, line: Seq<u8>) -> (
    Option<PendingModel>,
    DispositionModel,
) {
    match decoding(line, pending.token, pending.shape, pending.quoting) {
        Ok(DecodedModel::Success) => (None, DispositionModel::Resolved(Ok(finished(pending)))),
        Ok(DecodedModel::Failure { code, description }) => (
            None,
            DispositionModel::Resolved(Err(ErrorModel::Module { code, description })),
        ),
        Ok(DecodedModel::Data(row)) => (
            Some(PendingModel { rows: pending.rows.push(row), ..pending }),
            DispositionModel::Accepted,
        ),
        Err(DecodeError::MalformedTerminator) => (
            None,
            DispositionModel::Resolved(
                Err(ErrorModel::Framing(FramingError::MalformedTerminator)),
            ),
        ),
        Err(_) => (
            None,
            DispositionModel::Resolved(Err(ErrorModel::Framing(FramingError::MalformedData))),
        ),
    }
}

/// What becomes of a line that no exchange takes: an event where it begins
/// as one, noise otherwise.
pub open spec fn unsolicited(line: Seq<u8>) -> DispositionModel {
    match classification(line) {
        Some(urc) => DispositionModel::Urc(urc),
        None => DispositionModel::Noise,
    }
}

/// One more exchange whose terminator is owed, held to the range of the
/// count.
pub open spec fn raised(owed: usize) -> usize {
    if owed < usize::MAX {
        (owed + 1) as usize
    } else {
        owed
    }
}

/// The exchange ended before its terminator came: a data line of it did not
/// read, and the terminator of that exchange is still owed.
pub open spec fn leaves_terminator(disposition: DispositionModel) -> bool {
    disposition == DispositionModel::Resolved(
        Err::<ResponseModel, ErrorModel>(ErrorModel::Framing(FramingError::MalformedData)),
    )
}

/// What one line, received at `now`, does: the exchange slot afterwards, the
/// number of terminators that given-up exchanges are still owed, whether the
/// pending exchange timed out first, and what became of the line.
///
/// An exchange whose deadline has passed times out before the line is looked
/// at. A terminator that comes then is its own, late, and is noise; any other
/// line leaves its terminator owed and is classified as if none were pending.
///
/// While a terminator is owed, the next terminator line is that one: it is
/// noise and ends nothing, also where a newer exchange waits. Every other
/// line goes to the pending exchange first, and only a line that it does not
/// take is held against the events.
pub open spec fn dispatched(pending: Option<PendingModel>, owed: usize, line: Seq<u8>, now: u64)
    -> (Option<PendingModel>, usize, bool, DispositionModel) {
    if pending is Some && expired(pending.unwrap(), now) {
        if is_terminator(line) {
            (None, owed, true, DispositionModel::Noise)
        } else {
            (None, raised(owed), true, unsolicited(line))
        }
    } else if owed > 0 && is_terminator(line) {
        (pending, (owed - 1) as usize, false, DispositionModel::Noise)
    } else if pending is Some && takes(pending.unwrap(), line) {
        let (next, disposition) = offered(pending.unwrap(), line);
        (
            next,
            if leaves_terminator(disposition) {
                raised(owed)
            } else {
                owed
            },
            false,
            disposition,
        )
    } else {
        (pending, owed, false, unsolicited(line))
    }
}

impl Pending {
    /// The exchange that sending `command` at `now` opens.
    pub fn open(command: &Command, now: u64) -> (out: Pending)
        ensures
            out@ == opened(command@, now),
    {
        let out = Pending {
            token: slice_to_vec(command.prefix()),
            shape: command.shape().clone(),
            quoting: command.is_quoting(),
            sent_at: now,
            timeout_ms: command.timeout(),
            rows: Vec::new(),
        };
        assert(out.rows.deep_view() =~= Seq::empty());
        out
    }

    /// Whether the deadline has passed at `now`.
    pub fn is_expired(&self, now: u64) -> (out: bool)
        ensures
            out == expired(self@, now),
    {
        now > self.sent_at && now - self.sent_at > self.timeout_ms as u64
    }

    /// The last moment at which a terminator still ends the exchange, held
    /// to the range of the clock.
    pub fn last_moment(&self) -> (out: u64)
        ensures
            out == if deadline(self@) > u64::MAX {
                u64::MAX
            } else {
                deadline(self@) as u64
            },
    {
        let room = u64::MAX - self.sent_at;
        if self.timeout_ms as u64 > room {
            u64::MAX
        } else {
            self.sent_at + self.timeout_ms as u64
        }
    }

    /// The response of the exchange as it stands.
    fn finish(self) -> (out: Response)
        ensures
            out@ == finished(self@),
    {
        if self.shape.len() == 0 {
            Response::NoData
        } else {
            Response::Data(self.rows)
        }
    }

    /// Offers a line to the exchange. Gives the exchange back untouched, with
    /// no disposition, where the line is not one that it takes.
    pub fn offer(self, line: &[u8]) -> (out: (Option<Pending>, Option<Disposition>))
        ensures
            takes(self@, line@) ==> slot(out.0) == offered(self@, line@).0 && out.1 is Some
                && out.1.unwrap()@ == offered(self@, line@).1,
            !takes(self@, line@) ==> out.0 == Some(self) && out.1 is None,
    {
        match decode(line, self.token.as_slice(), &self.shape, self.quoting) {
            Ok(Decoded::Success) => (None, Some(Disposition::Resolved(Ok(self.finish())))),
            Ok(Decoded::Failure { code, description }) => (
                None,
                Some(Disposition::Resolved(Err(Error::Module { code, description }))),
            ),
            Ok(Decoded::Data(row)) => {
                let mut next = self;
                let ghost before = next.rows.deep_view();
                let ghost shown = row.deep_view();
                next.rows.push(row);
                assert(next.rows.deep_view() =~= before.push(shown));
                (Some(next), Some(Disposition::Accepted))
            },
            Err(DecodeError::Unrecognized) => (Some(self), None),
            Err(DecodeError::MalformedTerminator) => (
                None,
                Some(
                    Disposition::Resolved(Err(Error::Framing(FramingError::MalformedTerminator))),
                ),
            ),
            Err(DecodeError::MalformedData) => (
                None,
                Some(Disposition::Resolved(Err(Error::Framing(FramingError::MalformedData)))),
            ),
        }
    }
}

/// Classifies a line that no exchange takes.
pub fn classify_unsolicited(line: &[u8]) -> (out: Disposition)
    ensures
        out@ == unsolicited(line@),
{
    match classify(line) {
        Some(urc) => Disposition::Urc(urc),
        None => Disposition::Noise,
    }
}

/// One more exchange whose terminator is owed.
pub fn raise(owed: usize) -> (out: usize)
    ensures
        out == raised(owed),
{
    if owed < usize::MAX {
        owed + 1
    } else {
        owed
    }
}

/// Dispatches one line received at `now`: to the terminators that are owed,
/// to the pending exchange, then to the events, and to nothing where none
/// takes it. Gives the exchange slot and the number of owed terminators as
/// they are afterwards, whether the pending exchange timed out, and what
/// became of the line.
pub fn dispatch(pending: Option<Pending>, owed: usize, line: &[u8], now: u64) -> (out: (
    Option<Pending>,
    usize,
    bool,
    Disposition,
))
    ensures
        slot(out.0) == dispatched(slot(pending), owed, line@, now).0,
        out.1 == dispatched(slot(pending), owed, line@, now).1,
        out.2 == dispatched(slot(pending), owed, line@, now).2,
        out.3@ == dispatched(slot(pending), owed, line@, now).3,
{
    let terminator = ends_exchange(line);
    let late = match &pending {
        Some(p) => p.is_expired(now),
        None => false,
    };
    if late {
        if terminator {
            (None, owed, true, Disposition::Noise)
        } else {
            (None, raise(owed), true, classify_unsolicited(line))
        }
    } else if owed > 0 && terminator {
        (pending, owed - 1, false, Disposition::Noise)
    } else {
        match pending {
            Some(p) => {
                let (next, taken) = p.offer(line);
                match taken {
                    Some(disposition) => {
                        let left = match &disposition {
                            Disposition::Resolved(
                                Err(Error::Framing(FramingError::MalformedData)),
                            ) => raise(owed),
                            _ => owed,
                        };
                        (next, left, false, disposition)
                    },
                    None => (next, owed, false, classify_unsolicited(line)),
                }
            },
            None => (None, owed, false, classify_unsolicited(line)),
        }
    }
}

/// A terminator line begins as no event: where nobody waits for it, it is
/// noise.
pub proof fn lemma_terminator_is_noise(line: Seq<u8>)
    requires
        is_terminator(line),
    ensures
        unsolicited(line) is Noise,
{
    let rest = payload(line);
    crate::command::lemma_longest_match(rest, crate::command::table().len());
    match classification(line) {
        Some(urc) => {
            crate::command::lemma_codes_begin(urc);
            let code = urc.prefix();
            assert(rest.take(code.len() as int)[0] == rest[0]);
            assert(rest[0] == 0x2b);
            if rest == crate::wire::success_token() {
                assert(rest[0] == 0x4f);
            } else {
                let token = crate::wire::error_token();
                assert(rest.take(token.len() as int)[0] == rest[0]);
                assert(token[0] == 0x65);
            }
        },
        None => {},
    }
}

/// Timeout precedence: a line that comes after the deadline finds the
/// exchange timed out. It ends nothing: it is an event or noise, as it would
/// be with nobody waiting. Where it is a terminator, it is the one that the
/// exchange was owed; any other line leaves that terminator owed.
pub proof fn lemma_late_line(pending: PendingModel, owed: usize, line: Seq<u8>, now: u64)
    requires
        now > deadline(pending),
    ensures
        dispatched(Some(pending), owed, line, now).0 is None,
        dispatched(Some(pending), owed, line, now).2,
        dispatched(Some(pending), owed, line, now).3 == unsolicited(line),
        !(unsolicited(line) is Resolved),
        !(unsolicited(line) is Accepted),
        dispatched(Some(pending), owed, line, now).1 == if is_terminator(line) {
            owed
        } else {
            raised(owed)
        },
{
    if is_terminator(line) {
        lemma_terminator_is_noise(line);
    }
}

/// Where no exchange is pending, a line ends nothing, whatever it holds: a
/// terminator that comes late is noise, and is no longer owed.
pub proof fn lemma_idle_line(owed: usize, line: Seq<u8>, now: u64)
    ensures
        dispatched(None, owed, line, now).0 is None,
        !dispatched(None, owed, line, now).2,
        dispatched(None, owed, line, now).3 == unsolicited(line),
        !(unsolicited(line) is Resolved),
        !(unsolicited(line) is Accepted),
        dispatched(None, owed, line, now).1 == if owed > 0 && is_terminator(line) {
            (owed - 1) as usize
        } else {
            owed
        },
{
    if is_terminator(line) {
        lemma_terminator_is_noise(line);
    }
}

/// A stale terminator spares the newer exchange: while a given-up exchange
/// is owed its terminator, the terminator line that comes is noise. The
/// exchange that waits meanwhile still waits afterwards, as it was, and one
/// terminator less is owed.
pub proof fn lemma_stale_terminator(pending: PendingModel, owed: usize, line: Seq<u8>, now: u64)
    requires
        owed > 0,
        is_terminator(line),
    ensures
        dispatched(Some(pending), owed, line, now).3 is Noise,
        !expired(pending, now) ==> dispatched(Some(pending), owed, line, now) == (
            Some(pending),
            (owed - 1) as usize,
            false,
            DispositionModel::Noise,
        ),
{
}

/// The line is taken by the pending exchange.
pub open spec fn goes_to_exchange(
    pending: Option<PendingModel>,
    owed: usize,
    line: Seq<u8>,
    now: u64,
) -> bool {
    &&& pending is Some
    &&& !expired(pending.unwrap(), now)
    &&& !(owed > 0 && is_terminator(line))
    &&& takes(pending.unwrap(), line)
}

/// The line is delivered as the event `urc`.
pub open spec fn goes_to_event(
    pending: Option<PendingModel>,
    owed: usize,
    line: Seq<u8>,
    now: u64,
    urc: Urc,
) -> bool {
    dispatched(pending, owed, line, now).3 == DispositionModel::Urc(urc)
}

/// The line is dropped as noise.
pub open spec fn goes_to_noise(pending: Option<PendingModel>, owed: usize, line: Seq<u8>, now: u64)
    -> bool {
    dispatched(pending, owed, line, now).3 is Noise
}

/// Classification exclusivity: a line goes to the pending exchange, or is
/// delivered as one event, or is noise, and never two of these. The event is
/// the only one whose prefix the line begins with.
pub proof fn lemma_classified_once(
    pending: Option<PendingModel>,
    owed: usize,
    line: Seq<u8>,
    now: u64,
)
    ensures
        goes_to_exchange(pending, owed, line, now) ==> {
            &&& !goes_to_noise(pending, owed, line, now)
            &&& forall|urc: Urc| !goes_to_event(pending, owed, line, now, urc)
            &&& dispatched(pending, owed, line, now).3 is Resolved || dispatched(
                pending,
                owed,
                line,
                now,
            ).3 is Accepted
        },
        forall|urc: Urc| #[trigger]
            goes_to_event(pending, owed, line, now, urc) ==> {
                &&& !goes_to_exchange(pending, owed, line, now)
                &&& !goes_to_noise(pending, owed, line, now)
                &&& starts_with(payload(line), urc.prefix())
                &&& forall|other: Urc|
                    starts_with(payload(line), #[trigger] other.prefix()) ==> other == urc
            },
        goes_to_noise(pending, owed, line, now) ==> {
            &&& !goes_to_exchange(pending, owed, line, now)
            &&& forall|urc: Urc| !starts_with(payload(line), #[trigger] urc.prefix())
        },
        goes_to_exchange(pending, owed, line, now) || goes_to_noise(pending, owed, line, now)
            || exists|urc: Urc| goes_to_event(pending, owed, line, now, urc),
{
    let rest = payload(line);
    crate::command::lemma_longest_match(rest, crate::command::table().len());
    if is_terminator(line) {
        lemma_terminator_is_noise(line);
    }
    assert forall|urc: Urc| #[trigger] goes_to_event(pending, owed, line, now, urc) implies {
        &&& !goes_to_exchange(pending, owed, line, now)
        &&& !goes_to_noise(pending, owed, line, now)
        &&& starts_with(rest, urc.prefix())
        &&& forall|other: Urc| starts_with(rest, #[trigger] other.prefix()) ==> other == urc
    } by {
        assert(classification(line) == Some(urc));
        assert forall|other: Urc| starts_with(rest, #[trigger] other.prefix()) implies other
            == urc by {
            crate::command::lemma_single_match(rest, urc, other);
        }
    }
    if goes_to_noise(pending, owed, line, now) {
        assert(classification(line) is None);
        assert forall|urc: Urc| !starts_with(rest, #[trigger] urc.prefix()) by {
            crate::command::lemma_in_table(urc);
            assert(crate::command::table()[crate::command::position(urc)].prefix()
                == urc.prefix());
        }
    }
    if !goes_to_exchange(pending, owed, line, now) && !goes_to_noise(pending, owed, line, now) {
        let urc = classification(line).unwrap();
        assert(goes_to_event(pending, owed, line, now, urc));
    }
}

} // verus!
