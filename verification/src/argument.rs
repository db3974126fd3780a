//! Arguments and how each is written: the fragments of a line's field list.

use vstd::prelude::*;
use crate::error::EncodingError;
use crate::number::{digits, render, Radix};
use crate::wire::{is_line_break, plain, unbroken, CR, ESCAPE, LF, QUOTE, SEPARATOR};

verus! {

/// One positional value of a command or of a response.
#[derive(Debug, PartialEq, Eq)]
pub enum Argument {
    /// A number, written in `radix` without leading zeros.
    Integer { value: u32, radix: Radix },
    /// A text, quoted where the command asks for quoting.
    Text(Vec<u8>),
    /// The literal token of an enumeration; never quoted.
    Token(Vec<u8>),
    /// An optional value that is not there.
    Absent,
}

/// `Argument` with its bytes as a sequence.
pub enum ArgumentModel {
    Integer { value: u32, radix: Radix },
    Text(Seq<u8>),
    Token(Seq<u8>),
    Absent,
}

impl View for Argument {
    type V = ArgumentModel;

    open spec fn view(&self) -> ArgumentModel {
        match *self {
            Argument::Integer { value, radix } => ArgumentModel::Integer { value, radix },
            Argument::Text(bytes) => ArgumentModel::Text(bytes@),
            Argument::Token(bytes) => ArgumentModel::Token(bytes@),
            Argument::Absent => ArgumentModel::Absent,
        }
    }
}

impl Clone for Argument {
    fn clone(&self) -> (out: Self)
        ensures
            out@ == self@,
    {
        match self {
            Argument::Integer { value, radix } => Argument::Integer {
                value: *value,
                radix: *radix,
            },
            Argument::Text(bytes) => Argument::Text(bytes.clone()),
            Argument::Token(bytes) => Argument::Token(bytes.clone()),
            Argument::Absent => Argument::Absent,
        }
    }
}

impl DeepView for Argument {
    type V = ArgumentModel;

    open spec fn deep_view(&self) -> ArgumentModel {
        self@
    }
}

/// `bytes` with a backslash put before each quote and each backslash.
pub open spec fn escaped(bytes: Seq<u8>) -> Seq<u8>
    decreases bytes.len(),
{
    if bytes.len() == 0 {
        Seq::empty()
    } else if bytes[0] == QUOTE || bytes[0] == ESCAPE {
        seq![ESCAPE, bytes[0]] + escaped(bytes.skip(1))
    } else {
        seq![bytes[0]] + escaped(bytes.skip(1))
    }
}

/// `bytes` between quotes, escaped.
pub open spec fn quoted(bytes: Seq<u8>) -> Seq<u8> {
    seq![QUOTE] + escaped(bytes) + seq![QUOTE]
}

/// How one argument is written, or `None` where it cannot be: a text or token
/// that holds a line break, or one that holds a quote or a separator and is
/// not written between quotes.
pub open spec fn fragment(argument: ArgumentModel, quoting: bool) -> Option<Seq<u8>> {
    match argument {
        ArgumentModel::Integer { value, radix } => Some(digits(value as nat, radix)),
        ArgumentModel::Text(bytes) => if quoting {
            if unbroken(bytes) {
                Some(quoted(bytes))
            } else {
                None
            }
        } else if plain(bytes) {
            Some(bytes)
        } else {
            None
        },
        ArgumentModel::Token(bytes) => if plain(bytes) {
            Some(bytes)
        } else {
            None
        },
        ArgumentModel::Absent => Some(Seq::empty()),
    }
}

/// The number of arguments that are left once the absent ones at the end are
/// dropped.
pub open spec fn present_len(arguments: Seq<ArgumentModel>) -> nat
    decreases arguments.len(),
{
    if arguments.len() == 0 {
        0
    } else if arguments.last() is Absent {
        present_len(arguments.drop_last())
    } else {
        arguments.len()
    }
}

/// The position of the first argument that cannot be written, if there is
/// one.
pub open spec fn first_unencodable(arguments: Seq<ArgumentModel>, quoting: bool) -> Option<nat>
    decreases arguments.len(),
{
    if arguments.len() == 0 {
        None
    } else {
        match first_unencodable(arguments.drop_last(), quoting) {
            Some(position) => Some(position),
            None => if fragment(arguments.last(), quoting) is None {
                Some((arguments.len() - 1) as nat)
            } else {
                None
            },
        }
    }
}

/// The fragments of `arguments`, one for one. Meant for arguments that can
/// all be written.
pub open spec fn fragments(arguments: Seq<ArgumentModel>, quoting: bool) -> Seq<Seq<u8>> {
    Seq::new(arguments.len(), |i: int| fragment(arguments[i], quoting).unwrap())
}

/// `pieces` with a separator between each two.
pub open spec fn joined(pieces: Seq<Seq<u8>>) -> Seq<u8>
    decreases pieces.len(),
{
    if pieces.len() == 0 {
        Seq::empty()
    } else if pieces.len() == 1 {
        pieces[0]
    } else {
        pieces[0] + seq![SEPARATOR] + joined(pieces.skip(1))
    }
}

/// One of `pieces` holds a byte.
pub open spec fn has_content(pieces: Seq<Seq<u8>>) -> bool {
    exists|i: int| 0 <= i < pieces.len() && (#[trigger] pieces[i]).len() > 0
}

/// The fragments that a field list is made of: those of the arguments up to
/// the last one that is there. An absent argument before it leaves an empty
/// fragment, which keeps the later ones in their positions.
pub open spec fn listed(arguments: Seq<ArgumentModel>, quoting: bool) -> Seq<Seq<u8>> {
    fragments(arguments.take(present_len(arguments) as int), quoting)
}

pub fn is_plain(bytes: &[u8]) -> (out: bool)
    ensures
        out == plain(bytes@),
{
    let mut i: usize = 0;
    while i < bytes.len()
        invariant
            0 <= i <= bytes.len(),
            plain(bytes@.take(i as int)),
        decreases bytes.len() - i,
    {
        let b = bytes[i];
        if b == CR || b == LF || b == QUOTE || b == SEPARATOR {
            return false;
        }
        proof {
            let next = bytes@.take(i + 1);
            assert forall|j: int| 0 <= j < next.len() implies {
                let b = #[trigger] next[j];
                b != CR && b != LF && b != QUOTE && b != SEPARATOR
            } by {
                if j < i {
                    assert(next[j] == bytes@.take(i as int)[j]);
                }
            }
        }
        i = i + 1;
    }
    assert(bytes@.take(bytes.len() as int) =~= bytes@);
    true
}

pub fn is_unbroken(bytes: &[u8]) -> (out: bool)
    ensures
        out == unbroken(bytes@),
{
    let mut i: usize = 0;
    while i < bytes.len()
        invariant
            0 <= i <= bytes.len(),
            unbroken(bytes@.take(i as int)),
        decreases bytes.len() - i,
    {
        let b = bytes[i];
        if b == CR || b == LF {
            return false;
        }
        proof {
            let next = bytes@.take(i + 1);
            assert forall|j: int| 0 <= j < next.len() implies !is_line_break(
                #[trigger] next[j],
            ) by {
                if j < i {
                    assert(next[j] == bytes@.take(i as int)[j]);
                }
            }
        }
        i = i + 1;
    }
    assert(bytes@.take(bytes.len() as int) =~= bytes@);
    true
}

/// Escaping goes through the bytes from left to right.
pub proof fn lemma_escaped_push(bytes: Seq<u8>, last: u8)
    ensures
        escaped(bytes.push(last)) == escaped(bytes) + (if last == QUOTE || last == ESCAPE {
            seq![ESCAPE, last]
        } else {
            seq![last]
        }),
    decreases bytes.len(),
{
    let tail = if last == QUOTE || last == ESCAPE {
        seq![ESCAPE, last]
    } else {
        seq![last]
    };
    if bytes.len() == 0 {
        let whole = bytes.push(last);
        assert(whole[0] == last);
        assert(whole.skip(1) =~= Seq::<u8>::empty());
        assert(escaped(whole.skip(1)) =~= Seq::<u8>::empty());
        assert(escaped(bytes) =~= Seq::<u8>::empty());
        assert(escaped(whole) =~= tail + escaped(whole.skip(1)));
        assert(escaped(whole) =~= escaped(bytes) + tail);
    } else {
        let whole = bytes.push(last);
        let head = if bytes[0] == QUOTE || bytes[0] == ESCAPE {
            seq![ESCAPE, bytes[0]]
        } else {
            seq![bytes[0]]
        };
        assert(whole[0] == bytes[0]);
        assert(whole.skip(1) =~= bytes.skip(1).push(last));
        lemma_escaped_push(bytes.skip(1), last);
        assert(escaped(whole) == head + escaped(whole.skip(1)));
        assert(escaped(bytes) == head + escaped(bytes.skip(1)));
        assert(head + (escaped(bytes.skip(1)) + tail) =~= (head + escaped(bytes.skip(1))) + tail);
    }
}

/// Writes `bytes` between quotes, escaped.
pub fn quote(bytes: &[u8]) -> (out: Vec<u8>)
    ensures
        out@ == quoted(bytes@),
{
    let mut out: Vec<u8> = Vec::new();
    out.push(QUOTE);
    let mut i: usize = 0;
    assert(bytes@.take(0) =~= Seq::<u8>::empty());
    assert(out@ =~= seq![QUOTE] + escaped(bytes@.take(0)));
    while i < bytes.len()
        invariant
            0 <= i <= bytes.len(),
            out@ == seq![QUOTE] + escaped(bytes@.take(i as int)),
        decreases bytes.len() - i,
    {
        let b = bytes[i];
        proof {
            lemma_escaped_push(bytes@.take(i as int), b);
            assert(bytes@.take(i + 1) =~= bytes@.take(i as int).push(b));
        }
        if b == QUOTE || b == ESCAPE {
            out.push(ESCAPE);
        }
        out.push(b);
        assert(out@ =~= seq![QUOTE] + escaped(bytes@.take(i + 1)));
        i = i + 1;
    }
    assert(bytes@.take(bytes.len() as int) =~= bytes@);
    out.push(QUOTE);
    out
}

/// Writes one argument. `position` is where it stands in its command and
/// comes back in the error.
pub fn serialize(argument: &Argument, position: usize, quoting: bool) -> (out: Result<
    Vec<u8>,
    EncodingError,
>)
    ensures
        match fragment(argument@, quoting) {
            Some(bytes) => out is Ok && out.unwrap()@ == bytes,
            None => out == Err::<Vec<u8>, EncodingError>(
                EncodingError::Unencodable { position },
            ),
        },
{
    match argument {
        Argument::Integer { value, radix } => Ok(render(*value, *radix)),
        Argument::Text(bytes) => {
            if quoting {
                if is_unbroken(bytes.as_slice()) {
                    Ok(quote(bytes.as_slice()))
                } else {
                    Err(EncodingError::Unencodable { position })
                }
            } else if is_plain(bytes.as_slice()) {
                Ok(bytes.clone())
            } else {
                Err(EncodingError::Unencodable { position })
            }
        },
        Argument::Token(bytes) => {
            if is_plain(bytes.as_slice()) {
                Ok(bytes.clone())
            } else {
                Err(EncodingError::Unencodable { position })
            }
        },
        Argument::Absent => Ok(Vec::new()),
    }
}

/// Joining goes through the pieces from left to right.
pub proof fn lemma_joined_push(pieces: Seq<Seq<u8>>, last: Seq<u8>)
    ensures
        joined(pieces.push(last)) == if pieces.len() == 0 {
            last
        } else {
            joined(pieces) + seq![SEPARATOR] + last
        },
    decreases pieces.len(),
{
    let whole = pieces.push(last);
    if pieces.len() == 0 {
    } else if pieces.len() == 1 {
        assert(whole.skip(1) =~= seq![last]);
        assert(joined(whole.skip(1)) == last);
        assert(whole[0] == pieces[0]);
    } else {
        assert(whole[0] == pieces[0]);
        assert(whole.skip(1) =~= pieces.skip(1).push(last));
        lemma_joined_push(pieces.skip(1), last);
        assert(joined(whole) =~= joined(pieces) + seq![SEPARATOR] + last);
    }
}

/// Every argument from `present_len` on is absent, and the one before it is
/// not.
pub proof fn lemma_present_len(arguments: Seq<ArgumentModel>)
    ensures
        present_len(arguments) <= arguments.len(),
        present_len(arguments) > 0 ==> !(arguments[present_len(arguments) - 1] is Absent),
        forall|i: int| present_len(arguments) <= i < arguments.len() ==> arguments[i] is Absent,
    decreases arguments.len(),
{
    if arguments.len() > 0 && arguments.last() is Absent {
        let shorter = arguments.drop_last();
        lemma_present_len(shorter);
        assert forall|i: int| present_len(arguments) <= i < arguments.len() implies arguments[i]
            is Absent by {
            if i < shorter.len() {
                assert(shorter[i] == arguments[i]);
            }
        }
        if present_len(arguments) > 0 {
            assert(shorter[present_len(arguments) - 1] == arguments[present_len(arguments) - 1]);
        }
    }
}

/// The arguments up to the last one that is there are `count` where the one
/// before `count` is there and all from `count` on are absent.
pub proof fn lemma_present_len_is(arguments: Seq<ArgumentModel>, count: int)
    requires
        0 <= count <= arguments.len(),
        count > 0 ==> !(arguments[count - 1] is Absent),
        forall|i: int| count <= i < arguments.len() ==> arguments[i] is Absent,
    ensures
        present_len(arguments) == count,
    decreases arguments.len(),
{
    if arguments.len() > count {
        let shorter = arguments.drop_last();
        assert forall|i: int| count <= i < shorter.len() implies shorter[i] is Absent by {
            assert(shorter[i] == arguments[i]);
        }
        if count > 0 {
            assert(shorter[count - 1] == arguments[count - 1]);
        }
        lemma_present_len_is(shorter, count);
    }
}

/// An argument that cannot be written among the first `upto` is the first
/// such of the whole list.
pub proof fn lemma_first_unencodable_prefix(
    arguments: Seq<ArgumentModel>,
    quoting: bool,
    upto: int,
)
    requires
        0 <= upto <= arguments.len(),
        first_unencodable(arguments.take(upto), quoting) is Some,
    ensures
        first_unencodable(arguments, quoting) == first_unencodable(arguments.take(upto), quoting),
    decreases arguments.len() - upto,
{
    if upto == arguments.len() {
        assert(arguments.take(upto) =~= arguments);
    } else {
        let next = arguments.take(upto + 1);
        assert(next.drop_last() =~= arguments.take(upto));
        lemma_first_unencodable_prefix(arguments, quoting, upto + 1);
    }
}

/// Where every argument can be written, each has a fragment.
pub proof fn lemma_all_encodable(arguments: Seq<ArgumentModel>, quoting: bool)
    requires
        first_unencodable(arguments, quoting) is None,
    ensures
        forall|i: int| 0 <= i < arguments.len() ==> fragment(#[trigger] arguments[i], quoting) is Some,
    decreases arguments.len(),
{
    if arguments.len() > 0 {
        lemma_all_encodable(arguments.drop_last(), quoting);
        assert forall|i: int| 0 <= i < arguments.len() implies fragment(
            #[trigger] arguments[i],
            quoting,
        ) is Some by {
            if i < arguments.len() - 1 {
                assert(arguments.drop_last()[i] == arguments[i]);
            }
        }
    }
}

/// Escaping brings in no line break.
pub proof fn lemma_escaped_unbroken(bytes: Seq<u8>)
    requires
        unbroken(bytes),
    ensures
        unbroken(escaped(bytes)),
    decreases bytes.len(),
{
    if bytes.len() > 0 {
        assert(unbroken(bytes.skip(1))) by {
            assert forall|i: int| 0 <= i < bytes.skip(1).len() implies !is_line_break(
                #[trigger] bytes.skip(1)[i],
            ) by {
                assert(bytes.skip(1)[i] == bytes[i + 1]);
            }
        }
        lemma_escaped_unbroken(bytes.skip(1));
        assert(!is_line_break(bytes[0]));
    }
}

/// No fragment holds a line break.
pub proof fn lemma_fragment_unbroken(argument: ArgumentModel, quoting: bool)
    requires
        fragment(argument, quoting) is Some,
    ensures
        unbroken(fragment(argument, quoting).unwrap()),
{
    match argument {
        ArgumentModel::Integer { value, radix } => {
            crate::number::lemma_digits_plain(value as nat, radix);
        },
        ArgumentModel::Text(bytes) => {
            if quoting {
                lemma_escaped_unbroken(bytes);
            }
        },
        ArgumentModel::Token(bytes) => {},
        ArgumentModel::Absent => {},
    }
}

/// Pieces without a line break join into bytes without one.
pub proof fn lemma_joined_unbroken(pieces: Seq<Seq<u8>>)
    requires
        forall|i: int| 0 <= i < pieces.len() ==> unbroken(#[trigger] pieces[i]),
    ensures
        unbroken(joined(pieces)),
    decreases pieces.len(),
{
    if pieces.len() > 1 {
        assert forall|i: int| 0 <= i < pieces.skip(1).len() implies unbroken(
            #[trigger] pieces.skip(1)[i],
        ) by {
            assert(pieces.skip(1)[i] == pieces[i + 1]);
        }
        lemma_joined_unbroken(pieces.skip(1));
        assert(unbroken(pieces[0]));
    } else if pieces.len() == 1 {
        assert(unbroken(pieces[0]));
    }
}

/// Counts the arguments up to the last one that is there.
fn count_present(arguments: &Vec<Argument>) -> (out: usize)
    ensures
        out == present_len(arguments.deep_view()),
{
    let ghost all = arguments.deep_view();
    let mut count = arguments.len();
    assert(all.take(count as int) =~= all);
    while count > 0
        invariant
            count <= arguments.len(),
            all == arguments.deep_view(),
            present_len(all) == present_len(all.take(count as int)),
        decreases count,
    {
        proof {
            let part = all.take(count as int);
            assert(part.last() == arguments@[count - 1]@);
            assert(part.drop_last() =~= all.take(count - 1));
        }
        match &arguments[count - 1] {
            Argument::Absent => {
                count = count - 1;
            },
            _ => {
                return count;
            },
        }
    }
    count
}

/// Writes the field list of `arguments`: the fragments up to the last
/// argument that is there, with a separator between each two. Comes with
/// whether any fragment holds a byte.
pub fn write_fields(arguments: &Vec<Argument>, quoting: bool) -> (out: Result<
    (Vec<u8>, bool),
    EncodingError,
>)
    ensures
        match first_unencodable(arguments.deep_view(), quoting) {
            Some(position) => out == Err::<(Vec<u8>, bool), EncodingError>(
                EncodingError::Unencodable { position: position as usize },
            ),
            None => {
                &&& out is Ok
                &&& out.unwrap().0@ == joined(listed(arguments.deep_view(), quoting))
                &&& out.unwrap().1 == has_content(listed(arguments.deep_view(), quoting))
            },
        },
{
    let ghost all = arguments.deep_view();
    let n = arguments.len();
    let mut pieces: Vec<Vec<u8>> = Vec::new();
    let mut i: usize = 0;
    assert(all.take(0) =~= Seq::<ArgumentModel>::empty());
    while i < n
        invariant
            0 <= i <= n,
            n == arguments.len(),
            all == arguments.deep_view(),
            first_unencodable(all.take(i as int), quoting) is None,
            pieces.len() == i,
            forall|j: int| 0 <= j < i ==> fragment(all[j], quoting) == Some(#[trigger] pieces@[j]@),
        decreases n - i,
    {
        proof {
            let part = all.take(i + 1);
            assert(part.last() == all[i as int]);
            assert(part.drop_last() =~= all.take(i as int));
            assert(all[i as int] == arguments@[i as int]@);
        }
        match serialize(&arguments[i], i, quoting) {
            Ok(piece) => {
                pieces.push(piece);
            },
            Err(e) => {
                proof {
                    lemma_first_unencodable_prefix(all, quoting, i + 1);
                }
                return Err(e);
            },
        }
        i = i + 1;
    }
    assert(all.take(n as int) =~= all);
    let count = count_present(arguments);
    proof {
        lemma_present_len(all);
    }
    let ghost shown = listed(all, quoting);
    assert(shown.len() == count);
    assert forall|j: int| 0 <= j < count implies shown[j] == #[trigger] pieces@[j]@ by {
        assert(all.take(count as int)[j] == all[j]);
    }
    let mut body: Vec<u8> = Vec::new();
    let mut content = false;
    let mut k: usize = 0;
    assert(shown.take(0) =~= Seq::<Seq<u8>>::empty());
    while k < count
        invariant
            0 <= k <= count <= pieces.len(),
            shown.len() == count,
            forall|j: int| 0 <= j < count ==> shown[j] == #[trigger] pieces@[j]@,
            body@ == joined(shown.take(k as int)),
            content == has_content(shown.take(k as int)),
        decreases count - k,
    {
        proof {
            lemma_joined_push(shown.take(k as int), shown[k as int]);
            assert(shown.take(k + 1) =~= shown.take(k as int).push(shown[k as int]));
            let before = shown.take(k as int);
            let after = shown.take(k + 1);
            if has_content(before) {
                let w = choose|w: int| 0 <= w < before.len() && (#[trigger] before[w]).len() > 0;
                assert(after[w].len() > 0);
            }
            if shown[k as int].len() > 0 {
                assert(after[k as int].len() > 0);
            }
            if has_content(after) {
                let w = choose|w: int| 0 <= w < after.len() && (#[trigger] after[w]).len() > 0;
                if w < k {
                    assert(before[w].len() > 0);
                }
            }
        }
        if k > 0 {
            body.push(SEPARATOR);
        }
        let piece = &pieces[k];
        if piece.len() > 0 {
            content = true;
        }
        body.extend_from_slice(piece.as_slice());
        k = k + 1;
    }
    assert(shown.take(count as int) =~= shown);
    Ok((body, content))
}

} // verus!
