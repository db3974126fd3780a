//! The commands of the Calypso module, and the events that it sends on its
//! own.

pub mod device;
pub mod socket;
pub mod wlan;

use vstd::prelude::*;
use vstd::string::StringSliceAdditionalSpecFns;
use crate::exchange::Response;
use crate::response::{payload, strip_marker};
use crate::wire::{begins_with, starts_with};

verus! {

/// The answer of a command that is answered by a terminator alone.
#[derive(Debug, Clone, Copy, PartialEq, Eq, Structural)]
pub struct NoResponse;

impl NoResponse {
    /// Reads a response as that of a command that declares no data: `Some`
    /// exactly where the response holds none.
    pub fn from_response(response: &Response) -> (out: Option<NoResponse>)
        ensures
            out is Some <==> response@ is NoData,
    {
        match response {
            Response::NoData => Some(NoResponse),
            Response::Data(_) => None,
        }
    }
}

/// Unsolicited result codes: the events that the module reports without
/// being asked.
#[derive(Debug, Clone, Copy, PartialEq, Eq, Structural)]
pub enum Urc {
    /// Startup message
    StartUp,
    /// General events
    General,
    /// WLAN events
    Wlan,
    /// Socket events
    Socket,
    /// NetApp events
    NetApp,
    /// MQTT events
    Mqtt,
    /// Fatal error events
    Fatal,
    /// Custom events
    Custom,
}

impl Urc {
    /// The text that a line of this event begins with.
    pub open spec fn code(self) -> &'static str {
        match self {
            Urc::StartUp => "+eventstartup",
            Urc::General => "+eventgeneral",
            Urc::Wlan => "+eventwlan",
            Urc::Socket => "+eventsocket",
            Urc::NetApp => "+eventnetapp",
            Urc::Mqtt => "+eventmqtt",
            Urc::Fatal => "+eventfatalerror",
            Urc::Custom => "+eventcustom",
        }
    }

    /// The bytes that a line of this event begins with.
    pub open spec fn prefix(self) -> Seq<u8> {
        self.code().spec_bytes()
    }

    /// The text that a line of this event begins with.
    pub fn text(self) -> (out: &'static str)
        ensures
            out == self.code(),
    {
        match self {
            Urc::StartUp => "+eventstartup",
            Urc::General => "+eventgeneral",
            Urc::Wlan => "+eventwlan",
            Urc::Socket => "+eventsocket",
            Urc::NetApp => "+eventnetapp",
            Urc::Mqtt => "+eventmqtt",
            Urc::Fatal => "+eventfatalerror",
            Urc::Custom => "+eventcustom",
        }
    }
}

/// The events in the order in which a line is held against them.
pub open spec fn table() -> Seq<Urc> {
    seq![
        Urc::StartUp,
        Urc::General,
        Urc::Wlan,
        Urc::Socket,
        Urc::NetApp,
        Urc::Mqtt,
        Urc::Fatal,
        Urc::Custom,
    ]
}

pub fn events() -> (out: [Urc; 8])
    ensures
        out@ == table(),
{
    let out = [
        Urc::StartUp,
        Urc::General,
        Urc::Wlan,
        Urc::Socket,
        Urc::NetApp,
        Urc::Mqtt,
        Urc::Fatal,
        Urc::Custom,
    ];
    assert(out@ =~= table());
    out
}

/// The event with the longest prefix among the first `upto` of the table
/// that `rest` begins with; the earlier one where two are as long.
pub open spec fn longest_match(rest: Seq<u8>, upto: nat) -> Option<Urc>
    decreases upto,
{
    if upto == 0 || upto > table().len() {
        None
    } else {
        let earlier = longest_match(rest, (upto - 1) as nat);
        let urc = table()[upto - 1];
        if starts_with(rest, urc.prefix()) && (earlier is None || earlier.unwrap().prefix().len()
            < urc.prefix().len()) {
            Some(urc)
        } else {
            earlier
        }
    }
}

/// The event that a line, given without its terminator, reports: the one
/// whose prefix the line begins with once its marker is taken off, the
/// longest where several do. `None` where the line begins with none.
pub open spec fn classification(line: Seq<u8>) -> Option<Urc> {
    longest_match(payload(line), table().len())
}

/// Classifies a received line, given without its terminator.
pub fn classify(line: &[u8]) -> (out: Option<Urc>)
    ensures
        out == classification(line@),
{
    let rest = strip_marker(line);
    let all = events();
    let mut best: Option<Urc> = None;
    let mut i: usize = 0;
    while i < 8
        invariant
            0 <= i <= 8,
            all@ == table(),
            best == longest_match(rest@, i as nat),
        decreases 8 - i,
    {
        let urc = all[i];
        let code = urc.text().as_bytes();
        let longer = match best {
            None => true,
            Some(found) => found.text().as_bytes().len() < code.len(),
        };
        if longer && begins_with(rest, code) {
            best = Some(urc);
        }
        i = i + 1;
    }
    best
}

/// What `classify` finds is a match, and no event of the table matches with
/// a longer prefix; it finds nothing only where no event matches.
pub proof fn lemma_longest_match(rest: Seq<u8>, upto: nat)
    requires
        upto <= table().len(),
    ensures
        match longest_match(rest, upto) {
            Some(urc) => {
                &&& starts_with(rest, urc.prefix())
                &&& exists|i: int| 0 <= i < upto && table()[i] == urc
                &&& forall|i: int|
                    0 <= i < upto && starts_with(rest, #[trigger] table()[i].prefix())
                        ==> table()[i].prefix().len() <= urc.prefix().len()
            },
            None => forall|i: int|
                0 <= i < upto ==> !starts_with(rest, #[trigger] table()[i].prefix()),
        },
    decreases upto,
{
    if upto > 0 {
        lemma_longest_match(rest, (upto - 1) as nat);
        let earlier = longest_match(rest, (upto - 1) as nat);
        let urc = table()[upto - 1];
        match longest_match(rest, upto) {
            Some(found) => {
                if found == urc && starts_with(rest, urc.prefix()) && (earlier is None
                    || earlier.unwrap().prefix().len() < urc.prefix().len()) {
                    assert(table()[upto - 1] == found);
                } else {
                    let i = choose|i: int| 0 <= i < upto - 1 && table()[i] == found;
                    assert(table()[i] == found);
                }
            },
            None => {},
        }
    }
}

/// The bytes of an event's prefix, from the seventh on, tell it from every
/// other event.
pub proof fn lemma_codes_apart(one: Urc, other: Urc)
    requires
        one != other,
    ensures
        one.prefix().len() >= 8,
        other.prefix().len() >= 8,
        one.prefix()[6] != other.prefix()[6] || one.prefix()[7] != other.prefix()[7],
{
    broadcast use vstd::string::is_ascii_spec_bytes;

    reveal_strlit("+eventstartup");
    reveal_strlit("+eventgeneral");
    reveal_strlit("+eventwlan");
    reveal_strlit("+eventsocket");
    reveal_strlit("+eventnetapp");
    reveal_strlit("+eventmqtt");
    reveal_strlit("+eventfatalerror");
    reveal_strlit("+eventcustom");
    assert(vstd::string::is_ascii(one.code()));
    assert(vstd::string::is_ascii(other.code()));
}

/// Every event's prefix begins with `+`.
pub proof fn lemma_codes_begin(urc: Urc)
    ensures
        urc.prefix().len() >= 1,
        urc.prefix()[0] == 0x2b,
{
    broadcast use vstd::string::is_ascii_spec_bytes;

    reveal_strlit("+eventstartup");
    reveal_strlit("+eventgeneral");
    reveal_strlit("+eventwlan");
    reveal_strlit("+eventsocket");
    reveal_strlit("+eventnetapp");
    reveal_strlit("+eventmqtt");
    reveal_strlit("+eventfatalerror");
    reveal_strlit("+eventcustom");
    assert(vstd::string::is_ascii(urc.code()));
}

/// A line begins with the prefix of at most one event, so the event that
/// `classify` finds is the only one that matches.
pub proof fn lemma_single_match(rest: Seq<u8>, one: Urc, other: Urc)
    requires
        starts_with(rest, one.prefix()),
        starts_with(rest, other.prefix()),
    ensures
        one == other,
{
    if one != other {
        lemma_codes_apart(one, other);
        let a = one.prefix();
        let b = other.prefix();
        assert(rest.take(a.len() as int)[6] == rest[6]);
        assert(rest.take(a.len() as int)[7] == rest[7]);
        assert(rest.take(b.len() as int)[6] == rest[6]);
        assert(rest.take(b.len() as int)[7] == rest[7]);
    }
}

/// Where an event stands in the table.
pub open spec fn position(urc: Urc) -> int {
    match urc {
        Urc::StartUp => 0,
        Urc::General => 1,
        Urc::Wlan => 2,
        Urc::Socket => 3,
        Urc::NetApp => 4,
        Urc::Mqtt => 5,
        Urc::Fatal => 6,
        Urc::Custom => 7,
    }
}

/// Every event stands in the table.
pub proof fn lemma_in_table(urc: Urc)
    ensures
        0 <= position(urc) < table().len(),
        table()[position(urc)] == urc,
{
}

} // verus!
