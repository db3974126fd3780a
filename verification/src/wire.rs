//! The bytes that frame a line: marker, separators, quoting and terminator.

use vstd::prelude::*;

verus! {

/// Carriage return, first byte of the line terminator.
pub const CR: u8 = 0x0d;

/// Line feed, second byte of the line terminator.
pub const LF: u8 = 0x0a;

/// `,` between two fields.
pub const SEPARATOR: u8 = 0x2c;

/// `=` between a command's prefix and its arguments.
pub const ASSIGN: u8 = 0x3d;

/// `:` between a data line's token and its fields.
pub const COLON: u8 = 0x3a;

/// `"` around a quoted text.
pub const QUOTE: u8 = 0x22;

/// `\` before a quote or another backslash inside a quoted text.
pub const ESCAPE: u8 = 0x5c;

/// `AT`, which starts every command.
pub open spec fn marker() -> Seq<u8> {
    seq![0x41u8, 0x54u8]
}

/// `OK`, the line that ends an exchange with success.
pub open spec fn success_token() -> Seq<u8> {
    seq![0x4fu8, 0x4bu8]
}

/// `error`, which starts the line that ends an exchange with failure.
pub open spec fn error_token() -> Seq<u8> {
    seq![0x65u8, 0x72u8, 0x72u8, 0x6fu8, 0x72u8]
}

/// CR LF.
pub open spec fn terminator() -> Seq<u8> {
    seq![CR, LF]
}

pub open spec fn is_line_break(byte: u8) -> bool {
    byte == CR || byte == LF
}

/// No byte of `bytes` is a CR or an LF.
pub open spec fn unbroken(bytes: Seq<u8>) -> bool {
    forall|i: int| 0 <= i < bytes.len() ==> !is_line_break(#[trigger] bytes[i])
}

/// `bytes` may stand in a line as they are: no line break, no quote and no
/// separator among them.
pub open spec fn plain(bytes: Seq<u8>) -> bool {
    forall|i: int|
        0 <= i < bytes.len() ==> {
            let b = #[trigger] bytes[i];
            b != CR && b != LF && b != QUOTE && b != SEPARATOR
        }
}

/// `head` is how `bytes` begins.
pub open spec fn starts_with(bytes: Seq<u8>, head: Seq<u8>) -> bool {
    head.len() <= bytes.len() && bytes.take(head.len() as int) == head
}

/// One whole line: it ends in CR LF and holds no other line break.
pub open spec fn is_single_line(bytes: Seq<u8>) -> bool {
    &&& bytes.len() >= 2
    &&& bytes[bytes.len() - 2] == CR
    &&& bytes[bytes.len() - 1] == LF
    &&& unbroken(bytes.take(bytes.len() - 2))
}

pub fn marker_bytes() -> (out: [u8; 2])
    ensures
        out@ == marker(),
{
    let out = [0x41u8, 0x54u8];
    assert(out@ =~= marker());
    out
}

pub fn success_bytes() -> (out: [u8; 2])
    ensures
        out@ == success_token(),
{
    let out = [0x4fu8, 0x4bu8];
    assert(out@ =~= success_token());
    out
}

pub fn error_bytes() -> (out: [u8; 5])
    ensures
        out@ == error_token(),
{
    let out = [0x65u8, 0x72u8, 0x72u8, 0x6fu8, 0x72u8];
    assert(out@ =~= error_token());
    out
}

/// Whether `bytes` begins with `head`.
pub fn begins_with(bytes: &[u8], head: &[u8]) -> (out: bool)
    ensures
        out == starts_with(bytes@, head@),
{
    if head.len() > bytes.len() {
        return false;
    }
    let mut i: usize = 0;
    while i < head.len()
        invariant
            0 <= i <= head.len() <= bytes.len(),
            bytes@.take(i as int) == head@.take(i as int),
        decreases head.len() - i,
    {
        if bytes[i] != head[i] {
            proof {
                let whole = bytes@.take(head.len() as int);
                if whole == head@ {
                    assert(whole[i as int] == head@[i as int]);
                }
            }
            return false;
        }
        proof {
            assert(bytes@.take(i + 1) =~= bytes@.take(i as int).push(bytes@[i as int]));
            assert(head@.take(i + 1) =~= head@.take(i as int).push(head@[i as int]));
        }
        i = i + 1;
    }
    assert(head@.take(head.len() as int) =~= head@);
    true
}

/// Whether the two hold the same bytes.
pub fn same_bytes(left: &[u8], right: &[u8]) -> (out: bool)
    ensures
        out == (left@ == right@),
{
    if left.len() != right.len() {
        return false;
    }
    let out = begins_with(left, right);
    assert(left@.take(right.len() as int) =~= left@);
    out
}

} // verus!
