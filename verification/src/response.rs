//! Reading received lines: terminators, and data lines parsed field by field
//! against the response that the command declares.

use vstd::prelude::*;
use vstd::slice::{slice_subrange, slice_to_vec};
use crate::argument::{
    escaped, first_unencodable, fragment, is_plain, joined, lemma_present_len,
    lemma_present_len_is, listed, present_len, write_fields, Argument, ArgumentModel,
};
use crate::codec::{FieldKind, FieldType};
use crate::error::{DecodeError, EncodingError};
use crate::number::{
    integer_of, lemma_digits_plain, lemma_integer_round_trip, lemma_number_of_digits, parse, Radix,
};
use crate::wire::{
    begins_with, error_bytes, error_token, marker, marker_bytes, plain, same_bytes, starts_with,
    success_bytes, success_token, unbroken, COLON, ESCAPE, QUOTE, SEPARATOR,
};

verus! {

/// What one line says to the exchange that waits for it.
#[derive(Debug, PartialEq, Eq)]
pub enum Decoded {
    /// The success terminator.
    Success,
    /// The error terminator, with the module's code and description.
    Failure { code: u32, description: Vec<u8> },
    /// A data line, with one value for each field of the response.
    Data(Vec<Argument>),
}

/// `Decoded` as plain values.
pub enum DecodedModel {
    Success,
    Failure { code: u32, description: Seq<u8> },
    Data(Seq<ArgumentModel>),
}

impl View for Decoded {
    type V = DecodedModel;

    open spec fn view(&self) -> DecodedModel {
        match *self {
            Decoded::Success => DecodedModel::Success,
            Decoded::Failure { code, description } => DecodedModel::Failure {
                code,
                description: description@,
            },
            Decoded::Data(row) => DecodedModel::Data(row.deep_view()),
        }
    }
}

/// The number of bytes before the first separator of `input`, or before its
/// end.
pub open spec fn field_end(input: Seq<u8>) -> int
    decreases input.len(),
{
    if input.len() == 0 || input[0] == SEPARATOR {
        0
    } else {
        1 + field_end(input.skip(1))
    }
}

/// Reads a quoted text from behind its opening quote: the text without its
/// escapes, and the number of bytes up to and with the closing quote. `None`
/// where no closing quote comes.
pub open spec fn scan_quoted(input: Seq<u8>) -> Option<(Seq<u8>, int)>
    decreases input.len(),
{
    if input.len() == 0 {
        None
    } else if input[0] == QUOTE {
        Some((Seq::empty(), 1))
    } else if input[0] == ESCAPE {
        if input.len() < 2 {
            None
        } else {
            match scan_quoted(input.skip(2)) {
                Some((text, used)) => Some((seq![input[1]] + text, used + 2)),
                None => None,
            }
        }
    } else {
        match scan_quoted(input.skip(1)) {
            Some((text, used)) => Some((seq![input[0]] + text, used + 1)),
            None => None,
        }
    }
}

/// Reads the field that `input` begins with as `kind`: its value and the
/// number of bytes it takes. `None` where the bytes are no such field.
///
/// An empty field reads as absent where the kind is optional. A quoted text
/// ends at its closing quote; every other field ends before the next
/// separator.
pub open spec fn read_field(input: Seq<u8>, kind: FieldKind, quoting: bool) -> Option<
    (ArgumentModel, int),
> {
    if kind.ty is Text && quoting {
        if input.len() > 0 && input[0] == QUOTE {
            match scan_quoted(input.skip(1)) {
                Some((text, used)) => if text.len() <= kind.ty->Text_capacity {
                    Some((ArgumentModel::Text(text), used + 1))
                } else {
                    None
                },
                None => None,
            }
        } else if kind.optional && field_end(input) == 0 {
            Some((ArgumentModel::Absent, 0))
        } else {
            None
        }
    } else {
        let used = field_end(input);
        let raw = input.take(used);
        if used == 0 && kind.optional {
            Some((ArgumentModel::Absent, 0))
        } else {
            match kind.ty {
                FieldType::Integer { radix, max } => match integer_of(raw, radix, max) {
                    Some(value) => Some((ArgumentModel::Integer { value, radix }, used)),
                    None => None,
                },
                FieldType::Text { capacity } => if plain(raw) && raw.len() <= capacity {
                    Some((ArgumentModel::Text(raw), used))
                } else {
                    None
                },
                FieldType::Token { capacity } => if plain(raw) && raw.len() <= capacity {
                    Some((ArgumentModel::Token(raw), used))
                } else {
                    None
                },
            }
        }
    }
}

/// Every kind of `kinds` is optional.
pub open spec fn all_optional(kinds: Seq<FieldKind>) -> bool {
    forall|i: int| 0 <= i < kinds.len() ==> (#[trigger] kinds[i]).optional
}

/// Reads a field list against `kinds`, position by position: one value for
/// each kind, absent for the optional kinds that the list ends before.
/// `None` where a field does not read as its kind, where fields are left
/// over, or where the list ends before a kind that is not optional.
pub open spec fn read_row(input: Seq<u8>, kinds: Seq<FieldKind>, quoting: bool) -> Option<
    Seq<ArgumentModel>,
>
    decreases kinds.len(),
{
    if kinds.len() == 0 {
        None
    } else {
        match read_field(input, kinds[0], quoting) {
            None => None,
            Some((value, used)) => if used == input.len() {
                if all_optional(kinds.skip(1)) {
                    Some(
                        seq![value] + Seq::new(
                            (kinds.len() - 1) as nat,
                            |i: int| ArgumentModel::Absent,
                        ),
                    )
                } else {
                    None
                }
            } else if 0 <= used < input.len() && input[used] == SEPARATOR {
                match read_row(input.skip(used + 1), kinds.skip(1), quoting) {
                    Some(rest) => Some(seq![value] + rest),
                    None => None,
                }
            } else {
                None
            },
        }
    }
}

/// Reads what follows `error` in an error line: a separator, the code in
/// decimal, a separator, and the description up to the end of the line.
pub open spec fn read_failure(rest: Seq<u8>) -> Option<(u32, Seq<u8>)> {
    if rest.len() == 0 || rest[0] != SEPARATOR {
        None
    } else {
        let body = rest.skip(1);
        let used = field_end(body);
        if used == body.len() {
            None
        } else {
            match integer_of(body.take(used), Radix::Decimal, u32::MAX) {
                Some(code) => Some((code, body.skip(used + 1))),
                None => None,
            }
        }
    }
}

/// A received line without the marker, where it begins with one.
pub open spec fn payload(line: Seq<u8>) -> Seq<u8> {
    if starts_with(line, marker()) {
        line.skip(2)
    } else {
        line
    }
}

/// What a line, given without its terminator, says to an exchange whose
/// command has the prefix `token` and declares the fields `kinds`.
///
/// A line that begins with the token and a colon is a data line; the line
/// `OK` is the success terminator; a line that begins with `error` is the
/// error terminator. Anything else is not for the exchange.
pub open spec fn decoding(line: Seq<u8>, token: Seq<u8>, kinds: Seq<FieldKind>, quoting: bool)
    -> Result<DecodedModel, DecodeError> {
    let rest = payload(line);
    if starts_with(rest, token.push(COLON)) {
        match read_row(rest.skip(token.len() as int + 1), kinds, quoting) {
            Some(row) => Ok(DecodedModel::Data(row)),
            None => Err(DecodeError::MalformedData),
        }
    } else if rest == success_token() {
        Ok(DecodedModel::Success)
    } else if starts_with(rest, error_token()) {
        match read_failure(rest.skip(error_token().len() as int)) {
            Some((code, description)) => Ok(DecodedModel::Failure { code, description }),
            None => Err(DecodeError::MalformedTerminator),
        }
    } else {
        Err(DecodeError::Unrecognized)
    }
}

/// The line is a terminator by its leading token: the line `OK`, or a line
/// that begins with `error`, whether or not the marker stands before it.
pub open spec fn is_terminator(line: Seq<u8>) -> bool {
    payload(line) == success_token() || starts_with(payload(line), error_token())
}

/// Finds where the field that `input` begins with ends.
pub fn find_field_end(input: &[u8]) -> (out: usize)
    ensures
        out == field_end(input@),
        out <= input@.len(),
{
    let mut i: usize = 0;
    assert(input@.skip(0) =~= input@);
    while i < input.len() && input[i] != SEPARATOR
        invariant
            0 <= i <= input.len(),
            field_end(input@) == i + field_end(input@.skip(i as int)),
        decreases input.len() - i,
    {
        proof {
            let here = input@.skip(i as int);
            assert(here[0] == input@[i as int]);
            assert(here.skip(1) =~= input@.skip(i + 1));
        }
        i = i + 1;
    }
    proof {
        let here = input@.skip(i as int);
        if i < input.len() {
            assert(here[0] == input@[i as int]);
        }
    }
    i
}

/// Reads a quoted text from behind its opening quote.
pub fn read_quoted(input: &[u8]) -> (out: Option<(Vec<u8>, usize)>)
    ensures
        match scan_quoted(input@) {
            Some((text, used)) => out is Some && out.unwrap().0@ == text && out.unwrap().1 == used
                && used <= input@.len(),
            None => out is None,
        },
{
    let mut text: Vec<u8> = Vec::new();
    let mut i: usize = 0;
    assert(input@.skip(0) =~= input@);
    loop
        invariant
            0 <= i <= input.len(),
            scan_quoted(input@) == match scan_quoted(input@.skip(i as int)) {
                Some((tail, used)) => Some((text@ + tail, used + i)),
                None => None,
            },
        decreases input.len() - i,
    {
        let ghost here = input@.skip(i as int);
        if i >= input.len() {
            return None;
        }
        let byte = input[i];
        assert(here[0] == byte);
        if byte == QUOTE {
            assert(text@ + Seq::<u8>::empty() =~= text@);
            return Some((text, i + 1));
        } else if byte == ESCAPE {
            if i + 1 >= input.len() {
                return None;
            }
            let kept = input[i + 1];
            proof {
                assert(here[1] == kept);
                assert(here.skip(2) =~= input@.skip(i + 2));
                match scan_quoted(input@.skip(i + 2)) {
                    Some((tail, used)) => {
                        assert(text@ + (seq![kept] + tail) =~= text@.push(kept) + tail);
                    },
                    None => {},
                }
            }
            text.push(kept);
            i = i + 2;
        } else {
            proof {
                assert(here.skip(1) =~= input@.skip(i + 1));
                match scan_quoted(input@.skip(i + 1)) {
                    Some((tail, used)) => {
                        assert(text@ + (seq![byte] + tail) =~= text@.push(byte) + tail);
                    },
                    None => {},
                }
            }
            text.push(byte);
            i = i + 1;
        }
    }
}

/// Reads the field that `input` begins with as `kind`.
pub fn take_field(input: &[u8], kind: &FieldKind, quoting: bool) -> (out: Option<
    (Argument, usize),
>)
    ensures
        match read_field(input@, *kind, quoting) {
            Some((value, used)) => out is Some && out.unwrap().0@ == value && out.unwrap().1
                == used && used <= input@.len(),
            None => out is None,
        },
{
    let quoted_text = match kind.ty {
        FieldType::Text { capacity } => quoting,
        _ => false,
    };
    if quoted_text {
        let capacity = match kind.ty {
            FieldType::Text { capacity } => capacity,
            _ => 0,
        };
        if input.len() > 0 && input[0] == QUOTE {
            let rest = slice_subrange(input, 1, input.len());
            assert(rest@ =~= input@.skip(1));
            match read_quoted(rest) {
                Some((text, used)) => {
                    if text.len() <= capacity {
                        Some((Argument::Text(text), used + 1))
                    } else {
                        None
                    }
                },
                None => None,
            }
        } else if kind.optional && find_field_end(input) == 0 {
            Some((Argument::Absent, 0))
        } else {
            None
        }
    } else {
        let used = find_field_end(input);
        let raw = slice_subrange(input, 0, used);
        assert(raw@ =~= input@.take(used as int));
        if used == 0 && kind.optional {
            return Some((Argument::Absent, 0));
        }
        match kind.ty {
            FieldType::Integer { radix, max } => match parse(raw, radix, max) {
                Some(value) => Some((Argument::Integer { value, radix }, used)),
                None => None,
            },
            FieldType::Text { capacity } => {
                if is_plain(raw) && raw.len() <= capacity {
                    Some((Argument::Text(slice_to_vec(raw)), used))
                } else {
                    None
                }
            },
            FieldType::Token { capacity } => {
                if is_plain(raw) && raw.len() <= capacity {
                    Some((Argument::Token(slice_to_vec(raw)), used))
                } else {
                    None
                }
            },
        }
    }
}

/// Whether every kind from `from` on is optional.
fn rest_optional(kinds: &Vec<FieldKind>, from: usize) -> (out: bool)
    requires
        from <= kinds.len(),
    ensures
        out == all_optional(kinds@.skip(from as int)),
{
    let mut i = from;
    while i < kinds.len()
        invariant
            from <= i <= kinds.len(),
            forall|j: int| from <= j < i ==> (#[trigger] kinds@[j]).optional,
        decreases kinds.len() - i,
    {
        if !kinds[i].optional {
            assert(kinds@.skip(from as int)[i - from] == kinds@[i as int]);
            return false;
        }
        i = i + 1;
    }
    assert forall|j: int| 0 <= j < kinds@.skip(from as int).len() implies (
    #[trigger] kinds@.skip(from as int)[j]).optional by {
        assert(kinds@.skip(from as int)[j] == kinds@[j + from]);
    }
    true
}

/// Reads a field list against `kinds`.
pub fn take_row(input: &[u8], kinds: &Vec<FieldKind>, quoting: bool) -> (out: Option<
    Vec<Argument>,
>)
    ensures
        match read_row(input@, kinds@, quoting) {
            Some(row) => out is Some && out.unwrap().deep_view() == row,
            None => out is None,
        },
{
    let mut row: Vec<Argument> = Vec::new();
    let mut at: usize = 0;
    let mut i: usize = 0;
    assert(input@.skip(0) =~= input@);
    assert(kinds@.skip(0) =~= kinds@);
    assert(row.deep_view() =~= Seq::empty());
    loop
        invariant
            0 <= at <= input.len(),
            0 <= i <= kinds.len(),
            row.len() == i,
            read_row(input@, kinds@, quoting) == match read_row(
                input@.skip(at as int),
                kinds@.skip(i as int),
                quoting,
            ) {
                Some(rest) => Some(row.deep_view() + rest),
                None => None,
            },
        decreases kinds.len() - i,
    {
        if i >= kinds.len() {
            return None;
        }
        let ghost here = input@.skip(at as int);
        let ghost left = kinds@.skip(i as int);
        let ghost before = row.deep_view();
        assert(left[0] == kinds@[i as int]);
        assert(left.skip(1) =~= kinds@.skip(i + 1));
        let rest = slice_subrange(input, at, input.len());
        assert(rest@ =~= here);
        let (value, used) = match take_field(rest, &kinds[i], quoting) {
            Some(read) => read,
            None => {
                return None;
            },
        };
        let ghost shown = value@;
        row.push(value);
        assert(row.deep_view() =~= before.push(shown));
        if used == rest.len() {
            if !rest_optional(kinds, i + 1) {
                return None;
            }
            let mut k = i + 1;
            while k < kinds.len()
                invariant
                    i + 1 <= k <= kinds.len(),
                    row.len() == k,
                    row.deep_view() =~= before.push(shown) + Seq::new(
                        (k - i - 1) as nat,
                        |j: int| ArgumentModel::Absent,
                    ),
                decreases kinds.len() - k,
            {
                let ghost prior = row.deep_view();
                row.push(Argument::Absent);
                assert(row.deep_view() =~= prior.push(ArgumentModel::Absent));
                k = k + 1;
            }
            assert(row.deep_view() =~= before + (seq![shown] + Seq::new(
                (left.len() - 1) as nat,
                |j: int| ArgumentModel::Absent,
            )));
            return Some(row);
        }
        if rest[used] != SEPARATOR {
            return None;
        }
        proof {
            assert(here.skip(used + 1) =~= input@.skip(at + used + 1));
            match read_row(input@.skip(at + used + 1), kinds@.skip(i + 1), quoting) {
                Some(more) => {
                    assert(before + (seq![shown] + more) =~= before.push(shown) + more);
                },
                None => {},
            }
        }
        at = at + used + 1;
        i = i + 1;
    }
}

/// Reads what follows `error` in an error line.
pub fn take_failure(rest: &[u8]) -> (out: Option<(u32, Vec<u8>)>)
    ensures
        match read_failure(rest@) {
            Some((code, description)) => out is Some && out.unwrap().0 == code
                && out.unwrap().1@ == description,
            None => out is None,
        },
{
    if rest.len() == 0 || rest[0] != SEPARATOR {
        return None;
    }
    let body = slice_subrange(rest, 1, rest.len());
    assert(body@ =~= rest@.skip(1));
    let used = find_field_end(body);
    if used == body.len() {
        return None;
    }
    let digits = slice_subrange(body, 0, used);
    assert(digits@ =~= body@.take(used as int));
    match parse(digits, Radix::Decimal, u32::MAX) {
        Some(code) => {
            let tail = slice_subrange(body, used + 1, body.len());
            assert(tail@ =~= body@.skip(used + 1));
            Some((code, slice_to_vec(tail)))
        },
        None => None,
    }
}

/// Takes the marker off a received line, where it begins with one.
pub fn strip_marker(line: &[u8]) -> (out: &[u8])
    ensures
        out@ == payload(line@),
{
    let start = marker_bytes();
    if begins_with(line, start.as_slice()) {
        let rest = slice_subrange(line, 2, line.len());
        assert(rest@ =~= line@.skip(2));
        rest
    } else {
        line
    }
}

/// Whether the line is a terminator by its leading token.
pub fn ends_exchange(line: &[u8]) -> (out: bool)
    ensures
        out == is_terminator(line@),
{
    let rest = strip_marker(line);
    let success = success_bytes();
    let failure = error_bytes();
    same_bytes(rest, success.as_slice()) || begins_with(rest, failure.as_slice())
}

/// Decodes one received line, given without its terminator, for an exchange
/// whose command has the prefix `token`, declares the fields `kinds` and
/// quotes its texts or not.
pub fn decode(line: &[u8], token: &[u8], kinds: &Vec<FieldKind>, quoting: bool) -> (out: Result<
    Decoded,
    DecodeError,
>)
    ensures
        match decoding(line@, token@, kinds@, quoting) {
            Ok(decoded) => out is Ok && out.unwrap()@ == decoded,
            Err(e) => out is Err && out.unwrap_err() == e,
        },
{
    let rest = strip_marker(line);
    let mut head = slice_to_vec(token);
    head.push(COLON);
    if begins_with(rest, head.as_slice()) {
        let fields = slice_subrange(rest, head.len(), rest.len());
        assert(fields@ =~= rest@.skip(token@.len() as int + 1));
        return match take_row(fields, kinds, quoting) {
            Some(row) => Ok(Decoded::Data(row)),
            None => Err(DecodeError::MalformedData),
        };
    }
    let success = success_bytes();
    if same_bytes(rest, success.as_slice()) {
        return Ok(Decoded::Success);
    }
    let failure = error_bytes();
    if begins_with(rest, failure.as_slice()) {
        let tail = slice_subrange(rest, failure.len(), rest.len());
        assert(tail@ =~= rest@.skip(error_token().len() as int));
        return match take_failure(tail) {
            Some((code, description)) => Ok(Decoded::Failure { code, description }),
            None => Err(DecodeError::MalformedTerminator),
        };
    }
    Err(DecodeError::Unrecognized)
}

/// The data line with which the module hands back `row` to a command of the
/// prefix `token`: marker, token, colon, field list.
pub open spec fn echo_line(token: Seq<u8>, row: Seq<ArgumentModel>, quoting: bool) -> Seq<u8> {
    marker() + token + seq![COLON] + joined(listed(row, quoting))
}

/// Writes the data line that hands back `row` to a command of the prefix
/// `token`, as the module does. Fails where a value of the row cannot be
/// written.
pub fn echo(token: &[u8], row: &Vec<Argument>, quoting: bool) -> (out: Result<
    Vec<u8>,
    EncodingError,
>)
    ensures
        match first_unencodable(row.deep_view(), quoting) {
            Some(position) => out == Err::<Vec<u8>, EncodingError>(
                EncodingError::Unencodable { position: position as usize },
            ),
            None => out is Ok && out.unwrap()@ == echo_line(token@, row.deep_view(), quoting),
        },
{
    let body = match write_fields(row, quoting) {
        Ok(written) => written.0,
        Err(e) => {
            return Err(e);
        },
    };
    let mut line: Vec<u8> = Vec::new();
    let start = marker_bytes();
    line.extend_from_slice(start.as_slice());
    line.extend_from_slice(token);
    line.push(COLON);
    line.extend_from_slice(body.as_slice());
    assert(line@ =~= echo_line(token@, row.deep_view(), quoting));
    Ok(line)
}

/// `value` is one that a field of `kind` can hold and give back: of the
/// kind's type and within its bounds, writable under the quoting rule, absent
/// only where the kind is optional, and, where the kind is optional and the
/// value is written without quotes, not empty (an empty field there reads as
/// absent).
pub open spec fn conforms(value: ArgumentModel, kind: FieldKind, quoting: bool) -> bool {
    match value {
        ArgumentModel::Absent => kind.optional,
        ArgumentModel::Integer { value, radix } => kind.ty == (FieldType::Integer {
            radix,
            max: kind.ty->Integer_max,
        }) && value <= kind.ty->Integer_max,
        ArgumentModel::Text(bytes) => {
            &&& kind.ty is Text
            &&& bytes.len() <= kind.ty->Text_capacity
            &&& if quoting {
                unbroken(bytes)
            } else {
                plain(bytes) && (kind.optional ==> bytes.len() > 0)
            }
        },
        ArgumentModel::Token(bytes) => {
            &&& kind.ty is Token
            &&& bytes.len() <= kind.ty->Token_capacity
            &&& plain(bytes)
            &&& kind.optional ==> bytes.len() > 0
        },
    }
}

/// `row` has one conforming value for each kind of `kinds`.
pub open spec fn row_conforms(row: Seq<ArgumentModel>, kinds: Seq<FieldKind>, quoting: bool)
    -> bool {
    &&& row.len() == kinds.len()
    &&& forall|i: int| 0 <= i < row.len() ==> conforms(#[trigger] row[i], kinds[i], quoting)
}

/// A field without a separator ends where what follows begins.
pub proof fn lemma_field_end(field: Seq<u8>, tail: Seq<u8>)
    requires
        forall|i: int| 0 <= i < field.len() ==> field[i] != SEPARATOR,
        tail.len() == 0 || tail[0] == SEPARATOR,
    ensures
        field_end(field + tail) == field.len(),
    decreases field.len(),
{
    let input = field + tail;
    if field.len() == 0 {
        assert(input =~= tail);
    } else {
        assert(input[0] == field[0]);
        assert(input.skip(1) =~= field.skip(1) + tail);
        lemma_field_end(field.skip(1), tail);
    }
}

/// A text that was escaped is found again up to its closing quote.
pub proof fn lemma_scan_escaped(text: Seq<u8>, tail: Seq<u8>)
    ensures
        scan_quoted(escaped(text) + seq![QUOTE] + tail) == Some(
            (text, escaped(text).len() as int + 1),
        ),
    decreases text.len(),
{
    let input = escaped(text) + seq![QUOTE] + tail;
    if text.len() == 0 {
        assert(input[0] == QUOTE);
    } else {
        let rest = text.skip(1);
        let inner = escaped(rest) + seq![QUOTE] + tail;
        lemma_scan_escaped(rest, tail);
        if text[0] == QUOTE || text[0] == ESCAPE {
            assert(escaped(text) == seq![ESCAPE, text[0]] + escaped(rest));
            assert(input[0] == ESCAPE);
            assert(input[1] == text[0]);
            assert(input.skip(2) =~= inner);
        } else {
            assert(escaped(text) == seq![text[0]] + escaped(rest));
            assert(input[0] == text[0]);
            assert(input.skip(1) =~= inner);
        }
        assert(seq![text[0]] + rest =~= text);
    }
}

/// A conforming value, written and followed by a separator or by nothing,
/// reads back as itself and takes exactly the bytes it was written with.
pub proof fn lemma_read_field_exact(
    value: ArgumentModel,
    kind: FieldKind,
    quoting: bool,
    tail: Seq<u8>,
)
    requires
        conforms(value, kind, quoting),
        tail.len() == 0 || tail[0] == SEPARATOR,
    ensures
        fragment(value, quoting) is Some,
        read_field(fragment(value, quoting).unwrap() + tail, kind, quoting) == Some(
            (value, fragment(value, quoting).unwrap().len() as int),
        ),
{
    let written = fragment(value, quoting).unwrap();
    let input = written + tail;
    if kind.ty is Text && quoting {
        match value {
            ArgumentModel::Text(bytes) => {
                assert(input[0] == QUOTE);
                assert(input.skip(1) =~= escaped(bytes) + seq![QUOTE] + tail);
                lemma_scan_escaped(bytes, tail);
            },
            _ => {
                assert(input =~= tail);
            },
        }
    } else {
        match value {
            ArgumentModel::Integer { value: number, radix } => {
                lemma_digits_plain(number as nat, radix);
                lemma_number_of_digits(number as nat, radix);
                lemma_integer_round_trip(number, radix, kind.ty->Integer_max);
            },
            _ => {},
        }
        assert forall|i: int| 0 <= i < written.len() implies written[i] != SEPARATOR by {
            let b = written[i];
        }
        lemma_field_end(written, tail);
        assert(input.take(written.len() as int) =~= written);
    }
}

/// What is listed of a row is its first fragment and what is listed of the
/// rest, where the row has something to list beyond its first value.
pub proof fn lemma_listed_split(row: Seq<ArgumentModel>, quoting: bool)
    requires
        present_len(row) >= 2,
    ensures
        present_len(row.skip(1)) == present_len(row) - 1,
        listed(row, quoting).len() == present_len(row),
        listed(row, quoting)[0] == fragment(row[0], quoting).unwrap(),
        listed(row, quoting).skip(1) == listed(row.skip(1), quoting),
{
    let count = present_len(row);
    lemma_present_len(row);
    let rest = row.skip(1);
    assert(rest[count - 2] == row[count - 1]);
    assert forall|i: int| count - 1 <= i < rest.len() implies rest[i] is Absent by {
        assert(rest[i] == row[i + 1]);
    }
    lemma_present_len_is(rest, count - 1);
    let pieces = listed(row, quoting);
    let pieces_rest = listed(rest, quoting);
    assert(row.take(count as int)[0] == row[0]);
    assert(pieces.skip(1) =~= pieces_rest) by {
        assert forall|i: int| 0 <= i < pieces_rest.len() implies pieces.skip(1)[i]
            == pieces_rest[i] by {
            assert(row.take(count as int)[i + 1] == row[i + 1]);
            assert(rest.take(count - 1)[i] == rest[i]);
        }
    }
}

/// A row of which at most the first value is there reads back from what is
/// listed of it.
proof fn lemma_read_row_short(row: Seq<ArgumentModel>, kinds: Seq<FieldKind>, quoting: bool)
    requires
        kinds.len() > 0,
        row_conforms(row, kinds, quoting),
        present_len(row) <= 1,
    ensures
        read_row(joined(listed(row, quoting)), kinds, quoting) == Some(row),
{
    let count = present_len(row);
    lemma_present_len(row);
    let pieces = listed(row, quoting);
    let first = row[0];
    assert(conforms(first, kinds[0], quoting));
    lemma_read_field_exact(first, kinds[0], quoting, Seq::empty());
    let written = fragment(first, quoting).unwrap();
    assert(written + Seq::<u8>::empty() =~= written);
    if count == 0 {
        assert(first is Absent);
        assert(pieces =~= Seq::<Seq<u8>>::empty());
        assert(joined(pieces) =~= written);
    } else {
        assert(row.take(1)[0] == first);
        assert(pieces =~= seq![written]);
        assert(joined(pieces) == written);
    }
    assert forall|i: int| 0 <= i < kinds.skip(1).len() implies (#[trigger] kinds.skip(
        1,
    )[i]).optional by {
        assert(row[i + 1] is Absent);
        assert(conforms(row[i + 1], kinds[i + 1], quoting));
    }
    let filled = seq![first] + Seq::new((kinds.len() - 1) as nat, |i: int| ArgumentModel::Absent);
    assert(filled =~= row) by {
        assert forall|i: int| 0 <= i < row.len() implies filled[i] == row[i] by {
            if i > 0 {
                assert(row[i] is Absent);
            }
        }
    }
}

/// Reading undoes writing for a whole row: the field list of a conforming
/// row reads back as the row.
pub proof fn lemma_read_row_listed(row: Seq<ArgumentModel>, kinds: Seq<FieldKind>, quoting: bool)
    requires
        kinds.len() > 0,
        row_conforms(row, kinds, quoting),
    ensures
        read_row(joined(listed(row, quoting)), kinds, quoting) == Some(row),
    decreases row.len(),
{
    if present_len(row) <= 1 {
        lemma_read_row_short(row, kinds, quoting);
    } else {
        let rest = row.skip(1);
        let kinds_rest = kinds.skip(1);
        lemma_present_len(row);
        assert(row_conforms(rest, kinds_rest, quoting)) by {
            assert forall|i: int| 0 <= i < rest.len() implies conforms(
                #[trigger] rest[i],
                kinds_rest[i],
                quoting,
            ) by {
                assert(conforms(row[i + 1], kinds[i + 1], quoting));
            }
        }
        lemma_listed_split(row, quoting);
        lemma_read_row_listed(rest, kinds_rest, quoting);
        let first = row[0];
        assert(conforms(first, kinds[0], quoting));
        let written = fragment(first, quoting).unwrap();
        let pieces = listed(row, quoting);
        let body = joined(listed(rest, quoting));
        let tail = seq![SEPARATOR] + body;
        let input = joined(pieces);
        assert(input == pieces[0] + seq![SEPARATOR] + joined(pieces.skip(1)));
        assert(input =~= written + tail);
        lemma_read_field_exact(first, kinds[0], quoting, tail);
        assert(input[written.len() as int] == SEPARATOR);
        assert(input.skip(written.len() as int + 1) =~= body);
        assert(seq![first] + rest =~= row);
        lemma_read_row_step(input, kinds, quoting, first, written.len() as int, rest);
    }
}

/// One step of reading a row, where a separator follows the first field.
proof fn lemma_read_row_step(
    input: Seq<u8>,
    kinds: Seq<FieldKind>,
    quoting: bool,
    first: ArgumentModel,
    used: int,
    rest: Seq<ArgumentModel>,
)
    requires
        kinds.len() > 0,
        read_field(input, kinds[0], quoting) == Some((first, used)),
        0 <= used < input.len(),
        input[used] == SEPARATOR,
        read_row(input.skip(used + 1), kinds.skip(1), quoting) == Some(rest),
    ensures
        read_row(input, kinds, quoting) == Some(seq![first] + rest),
{
}

/// Round trip: where the module echoes a row that conforms to the fields a
/// command declares, decoding the echoed line gives the row back.
pub proof fn lemma_decode_echo(
    token: Seq<u8>,
    row: Seq<ArgumentModel>,
    kinds: Seq<FieldKind>,
    quoting: bool,
)
    requires
        kinds.len() > 0,
        row_conforms(row, kinds, quoting),
    ensures
        decoding(echo_line(token, row, quoting), token, kinds, quoting) == Ok::<
            DecodedModel,
            DecodeError,
        >(DecodedModel::Data(row)),
{
    let fields = joined(listed(row, quoting));
    let line = echo_line(token, row, quoting);
    let rest = token + seq![COLON] + fields;
    assert(line =~= marker() + rest);
    assert(line.take(2) =~= marker());
    assert(line.skip(2) =~= rest);
    assert(payload(line) == rest);
    assert(rest.take(token.len() as int + 1) =~= token.push(COLON));
    assert(rest.skip(token.len() as int + 1) =~= fields);
    lemma_read_row_listed(row, kinds, quoting);
}

} // verus!
