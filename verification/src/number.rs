//! Integers on the wire: rendering without leading zeros, and the strict
//! reading that accepts nothing else.

use vstd::prelude::*;
use crate::wire::{plain, CR, LF, QUOTE, SEPARATOR};

verus! {

/// The base in which an integer field is written.
#[derive(Clone, Copy, Debug, PartialEq, Eq, Structural)]
pub enum Radix {
    Decimal,
    Hexadecimal,
}

impl Radix {
    pub open spec fn base(self) -> nat {
        match self {
            Radix::Decimal => 10,
            Radix::Hexadecimal => 16,
        }
    }
}

/// The byte that stands for the digit `d`: `0`-`9`, then `A`-`F`.
pub open spec fn digit_byte(d: nat) -> u8 {
    if d < 10 {
        (0x30 + d) as u8
    } else {
        (0x37 + d) as u8
    }
}

/// The digit that `byte` stands for in `radix`, if it is one.
pub open spec fn digit_value(byte: u8, radix: Radix) -> Option<nat> {
    if 0x30 <= byte <= 0x39 {
        Some((byte - 0x30) as nat)
    } else if radix == Radix::Hexadecimal && 0x41 <= byte <= 0x46 {
        Some((byte - 0x37) as nat)
    } else {
        None
    }
}

/// `n` written in `radix`, most significant digit first, no leading zeros.
pub open spec fn digits(n: nat, radix: Radix) -> Seq<u8>
    decreases n,
{
    match radix {
        Radix::Decimal => if n < 10 {
            seq![digit_byte(n)]
        } else {
            digits(n / 10, radix).push(digit_byte(n % 10))
        },
        Radix::Hexadecimal => if n < 16 {
            seq![digit_byte(n)]
        } else {
            digits(n / 16, radix).push(digit_byte(n % 16))
        },
    }
}

/// The number that a non-empty run of digits denotes, leading zeros or not.
pub open spec fn number_of(text: Seq<u8>, radix: Radix) -> Option<nat>
    decreases text.len(),
{
    if text.len() == 0 {
        None
    } else {
        match digit_value(text.last(), radix) {
            None => None,
            Some(d) => if text.len() == 1 {
                Some(d)
            } else {
                match number_of(text.drop_last(), radix) {
                    Some(high) => Some(high * radix.base() + d),
                    None => None,
                }
            },
        }
    }
}

/// What an integer field reads as: the number it denotes, provided it is
/// written without leading zeros and does not exceed `max`.
pub open spec fn integer_of(text: Seq<u8>, radix: Radix, max: u32) -> Option<u32> {
    match number_of(text, radix) {
        Some(n) => if n <= max && (text.len() == 1 || text[0] != 0x30) {
            Some(n as u32)
        } else {
            None
        },
        None => None,
    }
}

impl Radix {
    pub fn modulus(self) -> (base: u64)
        ensures
            base == self.base(),
    {
        match self {
            Radix::Decimal => 10,
            Radix::Hexadecimal => 16,
        }
    }
}

/// Decimal rendering as done by `serde_at::to_vec` for a plain `u32`: the
/// digits of the value, most significant first, with no sign, padding, prefix
/// or terminator. Ten bytes hold every `u32`, so the call cannot run out of
/// room.
#[verifier::external_body]
fn render_decimal(value: u32) -> (out: Option<Vec<u8>>)
    ensures
        out.is_some(),
        out.unwrap()@ == digits(value as nat, Radix::Decimal),
{
    let options = atat::serde_at::SerializeOptions::default();
    atat::serde_at::to_vec::<u32, 10>(&value, "", options).ok().map(|bytes| bytes.to_vec())
}

/// Hexadecimal rendering as done by `serde_at::to_vec` for a `HexStr<u32>`
/// that asks for capitals, no `0x`, no delimiter and no zero padding, with
/// string quoting switched off: the upper-case hexadecimal digits of the
/// value and nothing else. Eight bytes hold every `u32`.
#[verifier::external_body]
fn render_hexadecimal(value: u32) -> (out: Option<Vec<u8>>)
    ensures
        out.is_some(),
        out.unwrap()@ == digits(value as nat, Radix::Hexadecimal),
{
    let mut hex = atat::serde_at::HexStr::<u32>::default();
    hex.val = value;
    let mut options = atat::serde_at::SerializeOptions::default();
    options.quote_escape_strings = false;
    atat::serde_at::to_vec::<_, 8>(&hex, "", options).ok().map(|bytes| bytes.to_vec())
}

/// Renders `value` in `radix`.
pub fn render(value: u32, radix: Radix) -> (out: Vec<u8>)
    ensures
        out@ == digits(value as nat, radix),
{
    let rendered = match radix {
        Radix::Decimal => render_decimal(value),
        Radix::Hexadecimal => render_hexadecimal(value),
    };
    match rendered {
        Some(bytes) => bytes,
        None => Vec::new(),
    }
}

/// Reads an integer field: `Some(n)` exactly when `field` is a run of digits
/// of `radix` without leading zeros that denotes `n`, and `n <= max`.
pub fn parse(field: &[u8], radix: Radix, max: u32) -> (out: Option<u32>)
    ensures
        out == integer_of(field@, radix, max),
{
    let n = field.len();
    if n == 0 {
        return None;
    }
    let base = radix.modulus();
    let ceiling: u64 = 0x1_0000_0000;
    // `total` follows the number read so far, held at `ceiling` once it
    // would pass it; `valid` falls when a byte is no digit.
    let mut total: u64 = 0;
    let mut valid = true;
    let mut i: usize = 0;
    while i < n
        invariant
            0 <= i <= n,
            n == field@.len(),
            base == radix.base(),
            ceiling == 0x1_0000_0000,
            total <= ceiling,
            i == 0 ==> valid && total == 0,
            i > 0 && valid ==> number_of(field@.take(i as int), radix) is Some,
            i > 0 && valid ==> total == if number_of(field@.take(i as int), radix).unwrap()
                >= ceiling {
                ceiling as nat
            } else {
                number_of(field@.take(i as int), radix).unwrap()
            },
            i > 0 && !valid ==> number_of(field@.take(i as int), radix) is None,
        decreases n - i,
    {
        let byte = field[i];
        proof {
            let next = field@.take(i + 1);
            assert(next.last() == byte);
            assert(next.drop_last() =~= field@.take(i as int));
        }
        let digit: Option<u64> = if 0x30 <= byte && byte <= 0x39 {
            Some((byte - 0x30) as u64)
        } else if radix == Radix::Hexadecimal && 0x41 <= byte && byte <= 0x46 {
            Some((byte - 0x37) as u64)
        } else {
            None
        };
        match digit {
            Some(d) => {
                if valid {
                    let grown = total * base + d;
                    total = if grown >= ceiling {
                        ceiling
                    } else {
                        grown
                    };
                }
            },
            None => {
                valid = false;
            },
        }
        i = i + 1;
    }
    assert(field@.take(n as int) =~= field@);
    if !valid || total > max as u64 {
        return None;
    }
    if n > 1 && field[0] == 0x30 {
        return None;
    }
    Some(total as u32)
}

/// Every byte of a rendering is a digit, and the rendering denotes the number
/// it was made from.
pub proof fn lemma_number_of_digits(n: nat, radix: Radix)
    ensures
        digits(n, radix).len() >= 1,
        number_of(digits(n, radix), radix) == Some(n),
    decreases n,
{
    let base = radix.base();
    if n >= base {
        let high = if radix == Radix::Decimal {
            n / 10
        } else {
            n / 16
        };
        let low = if radix == Radix::Decimal {
            n % 10
        } else {
            n % 16
        };
        lemma_number_of_digits(high, radix);
        let text = digits(n, radix);
        assert(text == digits(high, radix).push(digit_byte(low)));
        assert(text.last() == digit_byte(low));
        assert(text.drop_last() =~= digits(high, radix));
        assert(digit_value(digit_byte(low), radix) == Some(low));
    } else {
        assert(digit_value(digit_byte(n), radix) == Some(n));
    }
}

/// A rendering starts with a zero only where the number is zero.
pub proof fn lemma_digits_lead(n: nat, radix: Radix)
    ensures
        digits(n, radix).len() >= 1,
        n > 0 ==> digits(n, radix)[0] != 0x30,
        n == 0 ==> digits(n, radix) == seq![0x30u8],
    decreases n,
{
    let base = radix.base();
    if n >= base {
        let high = if radix == Radix::Decimal {
            n / 10
        } else {
            n / 16
        };
        lemma_digits_lead(high, radix);
        assert(digits(n, radix)[0] == digits(high, radix)[0]);
    }
}

/// Reading undoes rendering: a rendered number reads back as itself wherever
/// it does not exceed the field's maximum.
pub proof fn lemma_integer_round_trip(value: u32, radix: Radix, max: u32)
    requires
        value <= max,
    ensures
        integer_of(digits(value as nat, radix), radix, max) == Some(value),
{
    lemma_number_of_digits(value as nat, radix);
    lemma_digits_lead(value as nat, radix);
    let text = digits(value as nat, radix);
    if text.len() > 1 && value == 0 {
        assert(text == seq![0x30u8]);
    }
}

/// A field reads as a number only where it is that number's rendering: no
/// two texts read as the same integer.
pub proof fn lemma_integer_canonical(text: Seq<u8>, radix: Radix, max: u32)
    requires
        integer_of(text, radix, max) is Some,
    ensures
        text == digits(integer_of(text, radix, max).unwrap() as nat, radix),
    decreases text.len(),
{
    let n = number_of(text, radix).unwrap();
    let d = digit_value(text.last(), radix).unwrap();
    assert(digit_byte(d) == text.last());
    if text.len() == 1 {
        assert(text =~= seq![text.last()]);
    } else {
        let front = text.drop_last();
        let high = number_of(front, radix).unwrap();
        assert(front[0] == text[0]);
        assert(integer_of(front, radix, u32::MAX) is Some) by {
            assert(high <= n) by (nonlinear_arith)
                requires
                    n == high * radix.base() + d,
                    radix.base() >= 1,
            ;
        }
        lemma_integer_canonical(front, radix, u32::MAX);
        lemma_digits_lead(high, radix);
        assert(high > 0);
        assert(text =~= front.push(text.last()));
        match radix {
            Radix::Decimal => {
                assert(n == high * 10 + d);
            },
            Radix::Hexadecimal => {
                assert(n == high * 16 + d);
            },
        }
    }
}

/// The digits of a number hold no line break, quote or separator.
pub proof fn lemma_digits_plain(n: nat, radix: Radix)
    ensures
        plain(digits(n, radix)),
    decreases n,
{
    if n >= radix.base() {
        let high = if radix == Radix::Decimal {
            n / 10
        } else {
            n / 16
        };
        lemma_digits_plain(high, radix);
        let text = digits(n, radix);
        assert forall|i: int| 0 <= i < text.len() implies {
            let b = #[trigger] text[i];
            b != CR && b != LF && b != QUOTE && b != SEPARATOR
        } by {
            if i < text.len() - 1 {
                assert(text[i] == digits(high, radix)[i]);
            }
        }
    }
}

} // verus!
