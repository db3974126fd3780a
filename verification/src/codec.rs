//! The line codec: a command becomes one line of bytes, and a received line
//! is read as a terminator or as the data that the command waits for.

use vstd::prelude::*;
use vstd::string::{StrSliceExecFns, StringSliceAdditionalSpecFns};
use crate::argument::{
    first_unencodable, fragment, has_content, is_unbroken, joined, lemma_all_encodable,
    lemma_fragment_unbroken, lemma_joined_unbroken, lemma_present_len, listed, present_len,
    write_fields, Argument, ArgumentModel,
};
use crate::constants::MAX_LINE_SIZE;
use crate::error::EncodingError;
use crate::number::Radix;
use crate::wire::{is_single_line, marker, marker_bytes, terminator, unbroken, ASSIGN, CR, LF};

verus! {

/// The timeout of a command that declares none, in milliseconds.
pub const DEFAULT_TIMEOUT_MS: u32 = 1000;

/// What a field of a response holds.
#[derive(Clone, Copy, Debug, PartialEq, Eq, Structural)]
pub enum FieldType {
    /// A number of at most `max`, written in `radix`.
    Integer { radix: Radix, max: u32 },
    /// A text of at most `capacity` bytes.
    Text { capacity: usize },
    /// A literal token of at most `capacity` bytes.
    Token { capacity: usize },
}

/// One field of a response: what it holds, and whether it may be missing.
#[derive(Clone, Copy, Debug, PartialEq, Eq, Structural)]
pub struct FieldKind {
    pub ty: FieldType,
    pub optional: bool,
}

/// A command ready to be sent: prefix, arguments in their order, quoting
/// rule, the fields of the data it is answered with, and its timeout.
#[derive(Debug)]
pub struct Command {
    prefix: Vec<u8>,
    arguments: Vec<Argument>,
    quoting: bool,
    shape: Vec<FieldKind>,
    timeout_ms: u32,
}

/// `Command` as plain values.
pub struct CommandModel {
    pub prefix: Seq<u8>,
    pub arguments: Seq<ArgumentModel>,
    pub quoting: bool,
    /// The fields of a data line; empty where the command is answered by a
    /// terminator alone.
    pub shape: Seq<FieldKind>,
    pub timeout_ms: u32,
}

impl View for Command {
    type V = CommandModel;

    closed spec fn view(&self) -> CommandModel {
        CommandModel {
            prefix: self.prefix@,
            arguments: self.arguments.deep_view(),
            quoting: self.quoting,
            shape: self.shape@,
            timeout_ms: self.timeout_ms,
        }
    }
}

impl Command {
    /// A command of the given prefix, with no argument, with quoted texts,
    /// answered by a terminator alone within the default timeout.
    pub fn new(prefix: &str) -> (out: Command)
        ensures
            out@ == (CommandModel {
                prefix: prefix.spec_bytes(),
                arguments: Seq::empty(),
                quoting: true,
                shape: Seq::empty(),
                timeout_ms: DEFAULT_TIMEOUT_MS,
            }),
    {
        let out = Command {
            prefix: prefix.as_bytes_vec(),
            arguments: Vec::new(),
            quoting: true,
            shape: Vec::new(),
            timeout_ms: DEFAULT_TIMEOUT_MS,
        };
        assert(out.arguments.deep_view() =~= Seq::empty());
        out
    }

    /// The same command with `argument` after those it has.
    pub fn argument(self, argument: Argument) -> (out: Command)
        ensures
            out@ == (CommandModel { arguments: self@.arguments.push(argument@), ..self@ }),
    {
        let mut out = self;
        out.arguments.push(argument);
        assert(out.arguments.deep_view() =~= self.arguments.deep_view().push(argument@));
        out
    }

    /// The same command with texts written between quotes, or not.
    pub fn quoting(self, quoting: bool) -> (out: Command)
        ensures
            out@ == (CommandModel { quoting, ..self@ }),
    {
        let mut out = self;
        out.quoting = quoting;
        out
    }

    /// The same command answered by data lines of the given fields.
    pub fn response(self, shape: Vec<FieldKind>) -> (out: Command)
        ensures
            out@ == (CommandModel { shape: shape@, ..self@ }),
    {
        let mut out = self;
        out.shape = shape;
        out
    }

    /// The same command with another timeout.
    pub fn timeout_ms(self, timeout_ms: u32) -> (out: Command)
        ensures
            out@ == (CommandModel { timeout_ms, ..self@ }),
    {
        let mut out = self;
        out.timeout_ms = timeout_ms;
        out
    }

    pub fn prefix(&self) -> (out: &[u8])
        ensures
            out@ == self@.prefix,
    {
        self.prefix.as_slice()
    }

    pub fn arguments(&self) -> (out: &Vec<Argument>)
        ensures
            out.deep_view() == self@.arguments,
    {
        &self.arguments
    }

    pub fn is_quoting(&self) -> (out: bool)
        ensures
            out == self@.quoting,
    {
        self.quoting
    }

    pub fn shape(&self) -> (out: &Vec<FieldKind>)
        ensures
            out@ == self@.shape,
    {
        &self.shape
    }

    pub fn timeout(&self) -> (out: u32)
        ensures
            out == self@.timeout_ms,
    {
        self.timeout_ms
    }
}

/// The field list of a command, `=` in front, or nothing where no fragment
/// holds a byte.
pub open spec fn assignment(arguments: Seq<ArgumentModel>, quoting: bool) -> Seq<u8> {
    let pieces = listed(arguments, quoting);
    if has_content(pieces) {
        seq![ASSIGN] + joined(pieces)
    } else {
        Seq::empty()
    }
}

/// The line of a command whose arguments can all be written: marker, prefix,
/// field list, terminator.
pub open spec fn command_line(command: CommandModel) -> Seq<u8> {
    marker() + command.prefix + assignment(command.arguments, command.quoting) + terminator()
}

/// What encoding a command gives: its line, or why it has none.
pub open spec fn encoding(command: CommandModel) -> Result<Seq<u8>, EncodingError> {
    if !unbroken(command.prefix) {
        Err(EncodingError::InvalidPrefix)
    } else if first_unencodable(command.arguments, command.quoting) is Some {
        Err(
            EncodingError::Unencodable {
                position: first_unencodable(command.arguments, command.quoting).unwrap() as usize,
            },
        )
    } else if command_line(command).len() > MAX_LINE_SIZE {
        Err(EncodingError::LineTooLong)
    } else {
        Ok(command_line(command))
    }
}

/// Encodes a command as the one line that is written to the module.
///
/// Fails, before anything is written, where the prefix holds a line break,
/// where an argument cannot be written under the command's quoting rule, or
/// where the line would pass `MAX_LINE_SIZE`.
pub fn encode(command: &Command) -> (out: Result<Vec<u8>, EncodingError>)
    ensures
        match encoding(command@) {
            Ok(line) => out is Ok && out.unwrap()@ == line && is_single_line(line),
            Err(e) => out == Err::<Vec<u8>, EncodingError>(e),
        },
{
    if !is_unbroken(command.prefix.as_slice()) {
        return Err(EncodingError::InvalidPrefix);
    }
    let (body, content) = match write_fields(&command.arguments, command.quoting) {
        Ok(written) => written,
        Err(e) => {
            return Err(e);
        },
    };
    let mut line: Vec<u8> = Vec::new();
    let start = marker_bytes();
    line.extend_from_slice(start.as_slice());
    line.extend_from_slice(command.prefix.as_slice());
    if content {
        line.push(ASSIGN);
        line.extend_from_slice(body.as_slice());
    }
    line.push(CR);
    line.push(LF);
    assert(line@ =~= command_line(command@));
    if line.len() > MAX_LINE_SIZE as usize {
        return Err(EncodingError::LineTooLong);
    }
    proof {
        lemma_command_line_single(command@);
    }
    Ok(line)
}

/// A command that can be encoded fills exactly one line.
pub proof fn lemma_command_line_single(command: CommandModel)
    requires
        unbroken(command.prefix),
        first_unencodable(command.arguments, command.quoting) is None,
    ensures
        is_single_line(command_line(command)),
{
    let arguments = command.arguments;
    let quoting = command.quoting;
    lemma_all_encodable(arguments, quoting);
    lemma_present_len(arguments);
    let pieces = listed(arguments, quoting);
    assert forall|i: int| 0 <= i < pieces.len() implies unbroken(#[trigger] pieces[i]) by {
        let shown = arguments.take(present_len(arguments) as int);
        assert(shown[i] == arguments[i]);
        lemma_fragment_unbroken(arguments[i], quoting);
    }
    lemma_joined_unbroken(pieces);
    let line = command_line(command);
    let inner = marker() + command.prefix + assignment(arguments, quoting);
    assert(line =~= inner + terminator());
    assert(line.take(line.len() - 2) =~= inner);
    assert(unbroken(inner)) by {
        assert(unbroken(joined(pieces)));
        assert(unbroken(command.prefix));
    }
}

/// Whatever the number of absent arguments at its end, a command encodes to
/// the same line as the command without them.
pub proof fn lemma_trailing_absent_omitted(command: CommandModel, extra: nat)
    ensures
        encoding(
            CommandModel {
                arguments: command.arguments + Seq::new(extra, |i: int| ArgumentModel::Absent),
                ..command
            },
        ) == encoding(command),
    decreases extra,
{
    let padded = command.arguments + Seq::new(extra, |i: int| ArgumentModel::Absent);
    if extra == 0 {
        assert(padded =~= command.arguments);
    } else {
        let shorter = command.arguments + Seq::new((extra - 1) as nat, |i: int| ArgumentModel::Absent);
        lemma_trailing_absent_omitted(command, (extra - 1) as nat);
        assert(padded.drop_last() =~= shorter);
        assert(padded.last() is Absent);
        assert(present_len(padded) == present_len(shorter));
        lemma_present_len(shorter);
        assert(padded.take(present_len(padded) as int) =~= shorter.take(
            present_len(shorter) as int,
        ));
        assert(fragment(ArgumentModel::Absent, command.quoting) is Some);
    }
}

} // verus!
