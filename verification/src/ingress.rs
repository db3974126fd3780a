//! The ingestion buffer: bytes come in as the transport hands them over, and
//! whole lines come out.

use vstd::prelude::*;
use crate::wire::{CR, LF};

verus! {

/// What the ingestion buffer hands on when a line ends or cannot be held.
#[derive(Debug, PartialEq, Eq)]
pub enum Frame {
    /// A line, without its terminator.
    Line(Vec<u8>),
    /// A line outgrew the buffer. What is left of it is dropped up to its
    /// line feed.
    Overflow,
    /// A line feed came without a carriage return before it.
    Malformed,
}

/// `Frame` with its bytes as a sequence.
pub enum FrameModel {
    Line(Seq<u8>),
    Overflow,
    Malformed,
}

impl View for Frame {
    type V = FrameModel;

    open spec fn view(&self) -> FrameModel {
        match *self {
            Frame::Line(bytes) => FrameModel::Line(bytes@),
            Frame::Overflow => FrameModel::Overflow,
            Frame::Malformed => FrameModel::Malformed,
        }
    }
}

/// The ingestion buffer as plain values.
pub struct IngressModel {
    /// The bytes of the line that is coming in.
    pub buffer: Seq<u8>,
    /// The most bytes that the buffer holds: a line and its carriage return.
    pub capacity: nat,
    /// Whether the rest of an oversized line is being dropped.
    pub discarding: bool,
}

/// An empty buffer of the given capacity.
pub open spec fn fresh(capacity: nat) -> IngressModel {
    IngressModel { buffer: Seq::empty(), capacity, discarding: false }
}

/// What one byte does to the buffer, and the frame that it completes.
///
/// A line feed ends the line: the buffer is handed on without its carriage
/// return, or reported as malformed where it has none, and starts empty
/// again. Any other byte is kept; where the buffer is full already, the line
/// is given up as an overflow and its remaining bytes are dropped up to the
/// next line feed.
pub open spec fn step(state: IngressModel, byte: u8) -> (IngressModel, Option<FrameModel>) {
    let cleared = IngressModel { buffer: Seq::empty(), discarding: false, ..state };
    if byte == LF {
        if state.discarding {
            (cleared, None)
        } else if state.buffer.len() > 0 && state.buffer.last() == CR {
            (cleared, Some(FrameModel::Line(state.buffer.drop_last())))
        } else {
            (cleared, Some(FrameModel::Malformed))
        }
    } else if state.discarding {
        (state, None)
    } else if state.buffer.len() >= state.capacity {
        (
            IngressModel { buffer: Seq::empty(), discarding: true, ..state },
            Some(FrameModel::Overflow),
        )
    } else {
        (IngressModel { buffer: state.buffer.push(byte), ..state }, None)
    }
}

/// The buffer after `bytes`, and the frames that they complete, in order.
pub open spec fn run(state: IngressModel, bytes: Seq<u8>) -> (IngressModel, Seq<FrameModel>)
    decreases bytes.len(),
{
    if bytes.len() == 0 {
        (state, Seq::empty())
    } else {
        let (before, frames) = run(state, bytes.drop_last());
        let (after, frame) = step(before, bytes.last());
        match frame {
            Some(f) => (after, frames.push(f)),
            None => (after, frames),
        }
    }
}

/// The ingestion buffer.
#[derive(Debug)]
pub struct Ingress {
    buffer: Vec<u8>,
    capacity: usize,
    discarding: bool,
}

impl View for Ingress {
    type V = IngressModel;

    closed spec fn view(&self) -> IngressModel {
        IngressModel {
            buffer: self.buffer@,
            capacity: self.capacity as nat,
            discarding: self.discarding,
        }
    }
}

impl Ingress {
    /// An empty buffer that holds lines of up to `capacity` bytes, carriage
    /// return included.
    pub fn new(capacity: usize) -> (out: Ingress)
        ensures
            out@ == fresh(capacity as nat),
    {
        Ingress { buffer: Vec::new(), capacity, discarding: false }
    }

    pub fn capacity(&self) -> (out: usize)
        ensures
            out == self@.capacity,
    {
        self.capacity
    }

    /// Takes one byte in and hands on the frame that it completes, if any.
    pub fn push(&mut self, byte: u8) -> (out: Option<Frame>)
        ensures
            final(self)@ == step(old(self)@, byte).0,
            match step(old(self)@, byte).1 {
                Some(frame) => out is Some && out.unwrap()@ == frame,
                None => out is None,
            },
    {
        if byte == LF {
            let discarding = self.discarding;
            self.discarding = false;
            let mut line: Vec<u8> = Vec::new();
            core::mem::swap(&mut line, &mut self.buffer);
            if discarding {
                None
            } else if line.len() > 0 && line[line.len() - 1] == CR {
                line.pop();
                Some(Frame::Line(line))
            } else {
                Some(Frame::Malformed)
            }
        } else if self.discarding {
            None
        } else if self.buffer.len() >= self.capacity {
            self.buffer.clear();
            self.discarding = true;
            Some(Frame::Overflow)
        } else {
            self.buffer.push(byte);
            None
        }
    }
}

/// Running over two stretches of bytes is running over the first and then,
/// from where that ends, over the second.
pub proof fn lemma_run_concat(state: IngressModel, first: Seq<u8>, second: Seq<u8>)
    ensures
        run(state, first + second).0 == run(run(state, first).0, second).0,
        run(state, first + second).1 == run(state, first).1 + run(run(state, first).0, second).1,
    decreases second.len(),
{
    let whole = first + second;
    if second.len() == 0 {
        assert(whole =~= first);
        assert(run(state, first).1 + Seq::<FrameModel>::empty() =~= run(state, first).1);
    } else {
        assert(whole.drop_last() =~= first + second.drop_last());
        assert(whole.last() == second.last());
        lemma_run_concat(state, first, second.drop_last());
        let middle = run(state, first).0;
        let (before, frames) = run(middle, second.drop_last());
        match step(before, second.last()).1 {
            Some(f) => {
                assert(run(state, first).1 + frames.push(f) =~= (run(state, first).1
                    + frames).push(f));
            },
            None => {},
        }
    }
}

/// Bytes without a line feed that still fit are kept and complete nothing.
pub proof fn lemma_run_fits(state: IngressModel, bytes: Seq<u8>)
    requires
        !state.discarding,
        state.buffer.len() + bytes.len() <= state.capacity,
        forall|i: int| 0 <= i < bytes.len() ==> bytes[i] != LF,
    ensures
        run(state, bytes) == (
            IngressModel { buffer: state.buffer + bytes, ..state },
            Seq::<FrameModel>::empty(),
        ),
    decreases bytes.len(),
{
    if bytes.len() == 0 {
        assert(state.buffer + bytes =~= state.buffer);
    } else {
        lemma_run_fits(state, bytes.drop_last());
        assert((state.buffer + bytes.drop_last()).push(bytes.last()) =~= state.buffer + bytes);
    }
}

/// While the rest of an oversized line is dropped, bytes without a line feed
/// change nothing.
pub proof fn lemma_run_discarding(state: IngressModel, bytes: Seq<u8>)
    requires
        state.discarding,
        forall|i: int| 0 <= i < bytes.len() ==> bytes[i] != LF,
    ensures
        run(state, bytes) == (state, Seq::<FrameModel>::empty()),
    decreases bytes.len(),
{
    if bytes.len() > 0 {
        lemma_run_discarding(state, bytes.drop_last());
    }
}

/// A well-formed line that fits comes out whole from an empty buffer.
pub proof fn lemma_run_line(capacity: nat, content: Seq<u8>)
    requires
        content.len() + 1 <= capacity,
        forall|i: int| 0 <= i < content.len() ==> content[i] != LF,
    ensures
        run(fresh(capacity), content + seq![CR, LF]) == (
            fresh(capacity),
            seq![FrameModel::Line(content)],
        ),
{
    let held = content.push(CR);
    let bytes = content + seq![CR, LF];
    lemma_run_fits(fresh(capacity), held);
    assert(bytes.drop_last() =~= held);
    assert(bytes.last() == LF);
    assert(Seq::<u8>::empty() + held =~= held);
    assert(held.drop_last() =~= content);
    assert(Seq::<FrameModel>::empty().push(FrameModel::Line(content)) =~= seq![
        FrameModel::Line(content),
    ]);
}

/// A single byte does what `step` says.
pub proof fn lemma_run_one(state: IngressModel, byte: u8)
    ensures
        run(state, seq![byte]).0 == step(state, byte).0,
        run(state, seq![byte]).1 == match step(state, byte).1 {
            Some(f) => seq![f],
            None => Seq::<FrameModel>::empty(),
        },
{
    reveal_with_fuel(run, 2);
    let bytes = seq![byte];
    assert(bytes.drop_last() =~= Seq::<u8>::empty());
    assert(bytes.last() == byte);
    match step(state, byte).1 {
        Some(f) => {
            assert(Seq::<FrameModel>::empty().push(f) =~= seq![f]);
        },
        None => {},
    }
}

/// The buffer that drops the rest of an oversized line.
pub open spec fn dropping(capacity: nat) -> IngressModel {
    IngressModel { buffer: Seq::empty(), capacity, discarding: true }
}

/// More bytes than the buffer holds, with no line feed among them, give
/// exactly one overflow, and the buffer drops what follows.
pub proof fn lemma_run_overflow(capacity: nat, junk: Seq<u8>)
    requires
        junk.len() > capacity,
        forall|i: int| 0 <= i < junk.len() ==> junk[i] != LF,
    ensures
        run(fresh(capacity), junk) == (dropping(capacity), seq![FrameModel::Overflow]),
{
    let start = fresh(capacity);
    let fits = junk.take(capacity as int);
    let over = junk[capacity as int];
    let dropped = junk.skip(capacity as int + 1);
    let full = IngressModel { buffer: fits, ..start };
    assert(junk =~= fits + seq![over] + dropped);
    lemma_run_fits(start, fits);
    assert(Seq::<u8>::empty() + fits =~= fits);
    assert(run(start, fits) == (full, Seq::<FrameModel>::empty()));
    lemma_run_one(full, over);
    assert(over != LF);
    assert(step(full, over) == (dropping(capacity), Some(FrameModel::Overflow)));
    lemma_run_concat(start, fits, seq![over]);
    assert(Seq::<FrameModel>::empty() + seq![FrameModel::Overflow] =~= seq![FrameModel::Overflow]);
    assert(run(start, fits + seq![over]) == (dropping(capacity), seq![FrameModel::Overflow]));
    lemma_run_discarding(dropping(capacity), dropped);
    lemma_run_concat(start, fits + seq![over], dropped);
    assert(seq![FrameModel::Overflow] + Seq::<FrameModel>::empty() =~= seq![FrameModel::Overflow]);
}

/// Overflow recovery: more bytes than the buffer holds, with no line feed
/// among them, give exactly one overflow; what is left of that line is
/// dropped up to its line feed, and the well-formed line that follows comes
/// out whole.
pub proof fn lemma_overflow_recovery(capacity: nat, junk: Seq<u8>, content: Seq<u8>)
    requires
        junk.len() > capacity,
        forall|i: int| 0 <= i < junk.len() ==> junk[i] != LF,
        content.len() + 1 <= capacity,
        forall|i: int| 0 <= i < content.len() ==> content[i] != LF,
    ensures
        run(fresh(capacity), junk).1 == seq![FrameModel::Overflow],
        run(fresh(capacity), junk + seq![LF] + content + seq![CR, LF]) == (
            fresh(capacity),
            seq![FrameModel::Overflow, FrameModel::Line(content)],
        ),
{
    let start = fresh(capacity);
    lemma_run_overflow(capacity, junk);
    lemma_run_one(dropping(capacity), LF);
    assert(step(dropping(capacity), LF) == (start, None::<FrameModel>));
    lemma_run_concat(start, junk, seq![LF]);
    assert(seq![FrameModel::Overflow] + Seq::<FrameModel>::empty() =~= seq![FrameModel::Overflow]);
    assert(run(start, junk + seq![LF]) == (start, seq![FrameModel::Overflow]));
    lemma_run_line(capacity, content);
    lemma_run_concat(start, junk + seq![LF], content + seq![CR, LF]);
    assert(junk + seq![LF] + (content + seq![CR, LF]) =~= junk + seq![LF] + content + seq![
        CR,
        LF,
    ]);
    assert(seq![FrameModel::Overflow] + seq![FrameModel::Line(content)] =~= seq![
        FrameModel::Overflow,
        FrameModel::Line(content),
    ]);
}

} // verus!
