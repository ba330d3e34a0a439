//! Pretty-printing of values and streams, and the text forms of snapshot
//! strings: one-byte strings as potentially-ill-formed UTF-8, two-byte
//! strings as potentially-ill-formed UTF-16, both with replacement
//! characters for invalid sequences.

use vstd::prelude::*;
use crate::dump::{Edge, EdgeV, Node, NodeV};
use crate::run::spec_coarse_name;
use crate::shim::{char_from_u32, push_char};
use crate::stream::StreamItem;
use crate::value::{CallableV, Error, ErrorV, Value, ValueV};

verus! {

broadcast use
    vstd::std_specs::vec::group_vec_axioms,
    vstd::seq::group_seq_axioms;

/// The replacement character's code.
pub open spec fn spec_replacement() -> u32 {
    0xFFFDu32
}

/// Whether a code is a Unicode scalar value.
pub open spec fn spec_is_scalar(u: u32) -> bool {
    u < 0xD800 || (0xE000 <= u && u < 0x110000)
}

/// One step of lossy UTF-8 decoding at `i`: the scalar decoded and how many
/// bytes it took; any invalid byte decodes as the replacement character and
/// takes one byte.
pub open spec fn spec_utf8_step(bytes: Seq<u8>, i: int) -> (u32, int) {
    let b0 = bytes[i] as u32;
    if b0 < 0x80 {
        (b0, 1)
    } else if 0xC2 <= b0 && b0 <= 0xDF && i + 1 < bytes.len() && is_cont(bytes[i + 1]) {
        (((b0 - 0xC0) * 0x40 + cont_val(bytes[i + 1])) as u32, 2)
    } else if 0xE0 <= b0 && b0 <= 0xEF && i + 2 < bytes.len() && is_cont(bytes[i + 1]) && is_cont(
        bytes[i + 2],
    ) && valid_three(b0, bytes[i + 1] as u32) {
        (
            ((b0 - 0xE0) * 0x1000 + cont_val(bytes[i + 1]) * 0x40 + cont_val(bytes[i + 2])) as u32,
            3,
        )
    } else if 0xF0 <= b0 && b0 <= 0xF4 && i + 3 < bytes.len() && is_cont(bytes[i + 1]) && is_cont(
        bytes[i + 2],
    ) && is_cont(bytes[i + 3]) && valid_four(b0, bytes[i + 1] as u32) {
        (
            ((b0 - 0xF0) * 0x40000 + cont_val(bytes[i + 1]) * 0x1000 + cont_val(bytes[i + 2])
                * 0x40 + cont_val(bytes[i + 3])) as u32,
            4,
        )
    } else {
        (spec_replacement(), 1)
    }
}

/// Whether a byte is a UTF-8 continuation byte.
pub open spec fn is_cont(b: u8) -> bool {
    0x80 <= b && b <= 0xBF
}

/// A continuation byte's payload.
pub open spec fn cont_val(b: u8) -> int {
    b as int - 0x80
}

/// The second-byte constraint of a three-byte sequence: no overlong forms
/// and no surrogates.
pub open spec fn valid_three(b0: u32, b1: u32) -> bool {
    if b0 == 0xE0 {
        0xA0 <= b1 && b1 <= 0xBF
    } else if b0 == 0xED {
        0x80 <= b1 && b1 <= 0x9F
    } else {
        true
    }
}

/// The second-byte constraint of a four-byte sequence: no overlong forms
/// and nothing past U+10FFFF.
pub open spec fn valid_four(b0: u32, b1: u32) -> bool {
    if b0 == 0xF0 {
        0x90 <= b1 && b1 <= 0xBF
    } else if b0 == 0xF4 {
        0x80 <= b1 && b1 <= 0x8F
    } else {
        true
    }
}

/// Lossy UTF-8 decoding from `i` to the end.
pub open spec fn spec_utf8_chars(bytes: Seq<u8>, i: int) -> Seq<char>
    decreases bytes.len() - i,
{
    if i < 0 || i >= bytes.len() {
        Seq::empty()
    } else {
        let (u, width) = spec_utf8_step(bytes, i);
        seq![u as char] + spec_utf8_chars(bytes, i + width)
    }
}

/// The text a one-byte string denotes.
pub open spec fn spec_one_byte_text(bytes: Seq<u8>) -> Seq<char> {
    spec_utf8_chars(bytes, 0)
}

/// One step of lossy UTF-16 decoding at `i`: an unpaired surrogate decodes
/// as the replacement character and takes one unit.
pub open spec fn spec_utf16_step(units: Seq<u16>, i: int) -> (u32, int) {
    let u0 = units[i] as u32;
    if u0 < 0xD800 || u0 >= 0xE000 {
        (u0, 1)
    } else if u0 < 0xDC00 && i + 1 < units.len() && 0xDC00 <= units[i + 1] && units[i + 1]
        < 0xE000 {
        ((0x10000 + (u0 - 0xD800) * 0x400 + (units[i + 1] - 0xDC00)) as u32, 2)
    } else {
        (spec_replacement(), 1)
    }
}

/// Lossy UTF-16 decoding from `i` to the end.
pub open spec fn spec_utf16_chars(units: Seq<u16>, i: int) -> Seq<char>
    decreases units.len() - i,
{
    if i < 0 || i >= units.len() {
        Seq::empty()
    } else {
        let (u, width) = spec_utf16_step(units, i);
        seq![u as char] + spec_utf16_chars(units, i + width)
    }
}

/// The text a two-byte string denotes.
pub open spec fn spec_two_byte_text(units: Seq<u16>) -> Seq<char> {
    spec_utf16_chars(units, 0)
}

/// Decode a one-byte string's text. Mirrors [`spec_one_byte_text`].
#[verifier::loop_isolation(false)]
pub fn one_byte_text(bytes: &Vec<u8>) -> (r: String)
    ensures
        r@ == spec_one_byte_text(bytes@),
{
    let mut out = String::new();
    let mut i: usize = 0;
    let n = bytes.len();
    proof {
        assert(out@ + spec_utf8_chars(bytes@, 0) =~= spec_utf8_chars(bytes@, 0));
    }
    while i < n
        invariant
            i <= n,
            spec_one_byte_text(bytes@) == out@ + spec_utf8_chars(bytes@, i as int),
        decreases n - i,
    {
        let ghost out0 = out@;
        let b0 = bytes[i] as u32;
        let (u, width): (u32, usize) = if b0 < 0x80 {
            (b0, 1)
        } else if 0xC2 <= b0 && b0 <= 0xDF && n - i > 1 && is_cont_x(bytes[i + 1]) {
            ((b0 - 0xC0) * 0x40 + (bytes[i + 1] - 0x80) as u32, 2)
        } else if 0xE0 <= b0 && b0 <= 0xEF && n - i > 2 && is_cont_x(bytes[i + 1]) && is_cont_x(
            bytes[i + 2],
        ) && valid_three_x(b0, bytes[i + 1] as u32) {
            (
                (b0 - 0xE0) * 0x1000 + (bytes[i + 1] - 0x80) as u32 * 0x40 + (bytes[i + 2]
                    - 0x80) as u32,
                3,
            )
        } else if 0xF0 <= b0 && b0 <= 0xF4 && n - i > 3 && is_cont_x(bytes[i + 1]) && is_cont_x(
            bytes[i + 2],
        ) && is_cont_x(bytes[i + 3]) && valid_four_x(b0, bytes[i + 1] as u32) {
            (
                (b0 - 0xF0) * 0x40000 + (bytes[i + 1] - 0x80) as u32 * 0x1000 + (bytes[i + 2]
                    - 0x80) as u32 * 0x40 + (bytes[i + 3] - 0x80) as u32,
                4,
            )
        } else {
            (0xFFFD, 1)
        };
        proof {
            assert((u, width as int) == spec_utf8_step(bytes@, i as int));
            assert(spec_is_scalar(u));
        }
        match char_from_u32(u) {
            Some(c) => {
                push_char(&mut out, c);
                proof {
                    assert(out@ =~= out0 + seq![c]);
                    assert((out0 + seq![c]) + spec_utf8_chars(bytes@, i as int + width as int)
                        =~= out0 + (seq![c] + spec_utf8_chars(bytes@, i as int + width as int)));
                }
            },
            None => {
                proof {
                    assert(false);
                }
            },
        }
        i = i + width;
    }
    out
}

/// Whether a byte is a continuation byte.
fn is_cont_x(b: u8) -> (r: bool)
    ensures
        r == is_cont(b),
{
    0x80 <= b && b <= 0xBF
}

/// The second-byte constraint of a three-byte sequence.
fn valid_three_x(b0: u32, b1: u32) -> (r: bool)
    ensures
        r == valid_three(b0, b1),
{
    if b0 == 0xE0 {
        0xA0 <= b1 && b1 <= 0xBF
    } else if b0 == 0xED {
        0x80 <= b1 && b1 <= 0x9F
    } else {
        true
    }
}

/// The second-byte constraint of a four-byte sequence.
fn valid_four_x(b0: u32, b1: u32) -> (r: bool)
    ensures
        r == valid_four(b0, b1),
{
    if b0 == 0xF0 {
        0x90 <= b1 && b1 <= 0xBF
    } else if b0 == 0xF4 {
        0x80 <= b1 && b1 <= 0x8F
    } else {
        true
    }
}

/// Decode a two-byte string's text. Mirrors [`spec_two_byte_text`].
#[verifier::loop_isolation(false)]
pub fn two_byte_text(units: &Vec<u16>) -> (r: String)
    ensures
        r@ == spec_two_byte_text(units@),
{
    let mut out = String::new();
    let mut i: usize = 0;
    let n = units.len();
    proof {
        assert(out@ + spec_utf16_chars(units@, 0) =~= spec_utf16_chars(units@, 0));
    }
    while i < n
        invariant
            i <= n,
            spec_two_byte_text(units@) == out@ + spec_utf16_chars(units@, i as int),
        decreases n - i,
    {
        let ghost out0 = out@;
        let u0 = units[i] as u32;
        let (u, width): (u32, usize) = if u0 < 0xD800 || u0 >= 0xE000 {
            (u0, 1)
        } else if u0 < 0xDC00 && n - i > 1 && 0xDC00 <= units[i + 1] && units[i + 1] < 0xE000 {
            (0x10000 + (u0 - 0xD800) * 0x400 + (units[i + 1] - 0xDC00) as u32, 2)
        } else {
            (0xFFFD, 1)
        };
        proof {
            assert((u, width as int) == spec_utf16_step(units@, i as int));
            assert(spec_is_scalar(u));
        }
        match char_from_u32(u) {
            Some(c) => {
                push_char(&mut out, c);
                proof {
                    assert(out@ =~= out0 + seq![c]);
                    assert((out0 + seq![c]) + spec_utf16_chars(units@, i as int + width as int)
                        =~= out0 + (seq![c] + spec_utf16_chars(units@, i as int + width as int)));
                }
            },
            None => {
                proof {
                    assert(false);
                }
            },
        }
        i = i + width;
    }
    out
}

/// The decimal digits of a number, most significant first.
pub open spec fn spec_decimal(n: int) -> Seq<char>
    decreases n,
{
    if n <= 0 {
        Seq::empty()
    } else {
        spec_decimal(n / 10).push((0x30 + (n % 10)) as char)
    }
}

/// The decimal rendering of a number; zero renders as "0".
pub open spec fn spec_decimal_text(n: int) -> Seq<char> {
    if n == 0 {
        seq!['0']
    } else {
        spec_decimal(n)
    }
}

/// The hexadecimal digits of a number, lower case, most significant first.
pub open spec fn spec_hex(n: int) -> Seq<char>
    decreases n,
{
    if n <= 0 {
        Seq::empty()
    } else {
        spec_hex(n / 16).push(spec_hex_digit(n % 16))
    }
}

/// One lower-case hexadecimal digit.
pub open spec fn spec_hex_digit(d: int) -> char {
    if d < 10 {
        (0x30 + d) as char
    } else {
        (0x61 + (d - 10)) as char
    }
}

/// The hexadecimal rendering of a number; zero renders as "0".
pub open spec fn spec_hex_text(n: int) -> Seq<char> {
    if n == 0 {
        seq!['0']
    } else {
        spec_hex(n)
    }
}

/// Render a number in decimal. Mirrors [`spec_decimal_text`].
#[verifier::loop_isolation(false)]
pub fn decimal_text(n: u64) -> (r: String)
    ensures
        r@ == spec_decimal_text(n as int),
{
    if n == 0 {
        let mut out = String::new();
        push_char(&mut out, '0');
        proof {
            assert(out@ =~= seq!['0']);
        }
        return out;
    }
    let mut digits: Vec<char> = Vec::new();
    let mut m = n;
    while m > 0
        invariant
            spec_decimal(n as int) =~= spec_decimal(m as int) + digits@.reverse(),
        decreases m,
    {
        let d = (m % 10) as u32;
        let c = match char_from_u32(0x30 + d) {
            Some(c) => c,
            None => {
                proof {
                    assert(false);
                }
                '0'
            },
        };
        let ghost digits0 = digits@;
        digits.push(c);
        m = m / 10;
        proof {
            assert(digits@ =~= digits0.push(c));
            assert(digits@.reverse() =~= seq![c] + digits0.reverse());
            assert(spec_decimal((m * 10 + d) as int) =~= spec_decimal(m as int).push(c));
            assert(spec_decimal(m as int) + (seq![c] + digits0.reverse()) =~= (spec_decimal(
                m as int,
            ).push(c)) + digits0.reverse());
        }
    }
    let mut out = String::new();
    let mut i: usize = digits.len();
    proof {
        assert(spec_decimal(0int) =~= Seq::<char>::empty());
        assert(spec_decimal(n as int) =~= digits@.reverse());
        assert(out@ =~= digits@.reverse().take(0));
    }
    while i > 0
        invariant
            i <= digits@.len(),
            out@ =~= digits@.reverse().take(digits@.len() - i),
        decreases i,
    {
        i = i - 1;
        let ghost out0 = out@;
        push_char(&mut out, digits[i]);
        proof {
            assert(digits@.reverse()[digits@.len() - i - 1] == digits@[i as int]);
            assert(out@ =~= digits@.reverse().take(digits@.len() - i));
        }
    }
    proof {
        assert(digits@.reverse().take(digits@.len() as int) =~= digits@.reverse());
    }
    out
}

/// Render a number in lower-case hexadecimal. Mirrors [`spec_hex_text`].
#[verifier::loop_isolation(false)]
pub fn hex_text(n: u64) -> (r: String)
    ensures
        r@ == spec_hex_text(n as int),
{
    if n == 0 {
        let mut out = String::new();
        push_char(&mut out, '0');
        proof {
            assert(out@ =~= seq!['0']);
        }
        return out;
    }
    let mut digits: Vec<char> = Vec::new();
    let mut m = n;
    while m > 0
        invariant
            spec_hex(n as int) =~= spec_hex(m as int) + digits@.reverse(),
        decreases m,
    {
        let d = (m % 16) as u32;
        let code: u32 = if d < 10 {
            0x30 + d
        } else {
            0x61 + (d - 10)
        };
        let c = match char_from_u32(code) {
            Some(c) => c,
            None => {
                proof {
                    assert(false);
                }
                '0'
            },
        };
        proof {
            assert(c == spec_hex_digit(d as int));
        }
        let ghost digits0 = digits@;
        digits.push(c);
        m = m / 16;
        proof {
            assert(digits@ =~= digits0.push(c));
            assert(digits@.reverse() =~= seq![c] + digits0.reverse());
            assert(spec_hex((m * 16 + d) as int) =~= spec_hex(m as int).push(c));
            assert(spec_hex(m as int) + (seq![c] + digits0.reverse()) =~= (spec_hex(
                m as int,
            ).push(c)) + digits0.reverse());
        }
    }
    let mut out = String::new();
    let mut i: usize = digits.len();
    proof {
        assert(spec_hex(0int) =~= Seq::<char>::empty());
        assert(spec_hex(n as int) =~= digits@.reverse());
        assert(out@ =~= digits@.reverse().take(0));
    }
    while i > 0
        invariant
            i <= digits@.len(),
            out@ =~= digits@.reverse().take(digits@.len() - i),
        decreases i,
    {
        i = i - 1;
        let ghost out0 = out@;
        push_char(&mut out, digits[i]);
        proof {
            assert(digits@.reverse()[digits@.len() - i - 1] == digits@[i as int]);
            assert(out@ =~= digits@.reverse().take(digits@.len() - i));
        }
    }
    proof {
        assert(digits@.reverse().take(digits@.len() as int) =~= digits@.reverse());
    }
    out
}


/// One lower-case hex digit of a byte's value.
pub open spec fn spec_hex_digit_of(d: int) -> char {
    spec_hex_digit(d)
}

/// The escaped rendering of a one-byte string: printable ASCII bytes stand
/// for themselves between `b"` and `"`; every other byte is a two-digit
/// `\x` escape.
pub open spec fn spec_one_byte_escaped(bytes: Seq<u8>, i: int) -> Seq<char>
    decreases bytes.len() - i,
{
    if i < 0 || i >= bytes.len() {
        Seq::empty()
    } else {
        let b = bytes[i];
        let piece = if 0x20 <= b && b <= 0x7E {
            seq![b as char]
        } else {
            seq!['\\', 'x', spec_hex_digit(b as int / 16), spec_hex_digit(b as int % 16)]
        };
        piece + spec_one_byte_escaped(bytes, i + 1)
    }
}

/// The quoted form of a one-byte string.
pub open spec fn spec_one_byte_quoted(bytes: Seq<u8>) -> Seq<char> {
    seq!['b', '"'] + spec_one_byte_escaped(bytes, 0) + seq!['"']
}

/// The escaped rendering of a two-byte string: well-paired units decode to
/// their characters; an unpaired surrogate becomes a four-digit `\u{..}`
/// escape.
pub open spec fn spec_two_byte_escaped(units: Seq<u16>, i: int) -> Seq<char>
    decreases units.len() - i,
{
    if i < 0 || i >= units.len() {
        Seq::empty()
    } else {
        let u0 = units[i] as u32;
        if u0 < 0xD800 || u0 >= 0xE000 {
            seq![u0 as char] + spec_two_byte_escaped(units, i + 1)
        } else if u0 < 0xDC00 && i + 1 < units.len() && 0xDC00 <= units[i + 1] && units[i + 1]
            < 0xE000 {
            seq![((0x10000 + (u0 - 0xD800) * 0x400 + (units[i + 1] - 0xDC00)) as u32) as char]
                + spec_two_byte_escaped(units, i + 2)
        } else {
            seq!['\\', 'u', '{'] + seq![
                spec_hex_digit(u0 as int / 0x1000),
                spec_hex_digit((u0 as int / 0x100) % 16),
                spec_hex_digit((u0 as int / 16) % 16),
                spec_hex_digit(u0 as int % 16),
            ] + seq!['}'] + spec_two_byte_escaped(units, i + 1)
        }
    }
}

/// The quoted form of a two-byte string.
pub open spec fn spec_two_byte_quoted(units: Seq<u16>) -> Seq<char> {
    seq!['"'] + spec_two_byte_escaped(units, 0) + seq!['"']
}

/// Append one escaped byte's rendering.
fn push_escaped_byte(out: &mut String, b: u8)
    ensures
        final(out)@ == old(out)@ + (if 0x20 <= b && b <= 0x7E {
            seq![b as char]
        } else {
            seq!['\\', 'x', spec_hex_digit(b as int / 16), spec_hex_digit(b as int % 16)]
        }),
{
    let ghost out0 = out@;
    if 0x20 <= b && b <= 0x7E {
        match char_from_u32(b as u32) {
            Some(c) => {
                push_char(out, c);
                proof {
                    assert(out@ =~= out0 + seq![b as char]);
                }
            },
            None => {
                proof {
                    assert(false);
                }
            },
        }
    } else {
        push_char(out, '\\');
        push_char(out, 'x');
        push_hex_digit(out, (b / 16) as u32);
        push_hex_digit(out, (b % 16) as u32);
        proof {
            assert(out@ =~= out0 + seq![
                '\\',
                'x',
                spec_hex_digit(b as int / 16),
                spec_hex_digit(b as int % 16),
            ]);
        }
    }
}

/// Append one hex digit.
fn push_hex_digit(out: &mut String, d: u32)
    requires
        d < 16,
    ensures
        final(out)@ == old(out)@.push(spec_hex_digit(d as int)),
{
    let code: u32 = if d < 10 {
        0x30 + d
    } else {
        0x61 + (d - 10)
    };
    match char_from_u32(code) {
        Some(c) => {
            push_char(out, c);
        },
        None => {
            proof {
                assert(false);
            }
        },
    }
}

/// Render a one-byte string in its quoted, escaped form. Mirrors
/// [`spec_one_byte_quoted`].
#[verifier::loop_isolation(false)]
pub fn one_byte_quoted(bytes: &Vec<u8>) -> (r: String)
    ensures
        r@ == spec_one_byte_quoted(bytes@),
{
    let mut out = String::new();
    push_char(&mut out, 'b');
    push_char(&mut out, '"');
    let ghost prefix = out@;
    proof {
        assert(prefix =~= seq!['b', '"']);
        assert(out@ + spec_one_byte_escaped(bytes@, 0) =~= prefix + spec_one_byte_escaped(
            bytes@,
            0,
        ));
    }
    let mut i: usize = 0;
    while i < bytes.len()
        invariant
            i <= bytes@.len(),
            prefix + spec_one_byte_escaped(bytes@, 0) == out@ + spec_one_byte_escaped(
                bytes@,
                i as int,
            ),
        decreases bytes@.len() - i,
    {
        let ghost out0 = out@;
        let ghost piece = if 0x20 <= bytes@[i as int] && bytes@[i as int] <= 0x7E {
            seq![bytes@[i as int] as char]
        } else {
            seq![
                '\\',
                'x',
                spec_hex_digit(bytes@[i as int] as int / 16),
                spec_hex_digit(bytes@[i as int] as int % 16),
            ]
        };
        push_escaped_byte(&mut out, bytes[i]);
        proof {
            assert((out0 + piece) + spec_one_byte_escaped(bytes@, i as int + 1) =~= out0 + (piece
                + spec_one_byte_escaped(bytes@, i as int + 1)));
        }
        i = i + 1;
    }
    push_char(&mut out, '"');
    proof {
        assert(spec_one_byte_escaped(bytes@, bytes@.len() as int) =~= Seq::<char>::empty());
        assert((prefix + spec_one_byte_escaped(bytes@, 0)) + Seq::<char>::empty() =~= prefix
            + spec_one_byte_escaped(bytes@, 0));
        assert(out@ =~= spec_one_byte_quoted(bytes@));
    }
    out
}

/// Render a two-byte string in its quoted, escaped form. Mirrors
/// [`spec_two_byte_quoted`].
#[verifier::loop_isolation(false)]
pub fn two_byte_quoted(units: &Vec<u16>) -> (r: String)
    ensures
        r@ == spec_two_byte_quoted(units@),
{
    let mut out = String::new();
    push_char(&mut out, '"');
    let ghost prefix = out@;
    proof {
        assert(prefix =~= seq!['"']);
    }
    let mut i: usize = 0;
    let n = units.len();
    while i < n
        invariant
            i <= n,
            n == units@.len(),
            prefix + spec_two_byte_escaped(units@, 0) == out@ + spec_two_byte_escaped(
                units@,
                i as int,
            ),
        decreases n - i,
    {
        let ghost out0 = out@;
        let u0 = units[i] as u32;
        if u0 < 0xD800 || u0 >= 0xE000 {
            match char_from_u32(u0) {
                Some(c) => {
                    push_char(&mut out, c);
                    proof {
                        assert(out@ =~= out0 + seq![u0 as char]);
                        assert((out0 + seq![u0 as char]) + spec_two_byte_escaped(
                            units@,
                            i as int + 1,
                        ) =~= out0 + (seq![u0 as char] + spec_two_byte_escaped(
                            units@,
                            i as int + 1,
                        )));
                    }
                },
                None => {
                    proof {
                        assert(false);
                    }
                },
            }
            i = i + 1;
        } else if u0 < 0xDC00 && n - i > 1 && 0xDC00 <= units[i + 1] && units[i + 1] < 0xE000 {
            let code: u32 = 0x10000 + (u0 - 0xD800) * 0x400 + (units[i + 1] - 0xDC00) as u32;
            match char_from_u32(code) {
                Some(c) => {
                    push_char(&mut out, c);
                    proof {
                        assert(out@ =~= out0 + seq![code as char]);
                        assert((out0 + seq![code as char]) + spec_two_byte_escaped(
                            units@,
                            i as int + 2,
                        ) =~= out0 + (seq![code as char] + spec_two_byte_escaped(
                            units@,
                            i as int + 2,
                        )));
                    }
                },
                None => {
                    proof {
                        assert(false);
                    }
                },
            }
            i = i + 2;
        } else {
            push_char(&mut out, '\\');
            push_char(&mut out, 'u');
            push_char(&mut out, '{');
            push_hex_digit(&mut out, u0 / 0x1000);
            push_hex_digit(&mut out, (u0 / 0x100) % 16);
            push_hex_digit(&mut out, (u0 / 16) % 16);
            push_hex_digit(&mut out, u0 % 16);
            push_char(&mut out, '}');
            proof {
                let piece = seq!['\\', 'u', '{'] + seq![
                    spec_hex_digit(u0 as int / 0x1000),
                    spec_hex_digit((u0 as int / 0x100) % 16),
                    spec_hex_digit((u0 as int / 16) % 16),
                    spec_hex_digit(u0 as int % 16),
                ] + seq!['}'];
                assert(out@ =~= out0 + piece);
                assert((out0 + piece) + spec_two_byte_escaped(units@, i as int + 1) =~= out0 + (
                piece + spec_two_byte_escaped(units@, i as int + 1)));
            }
            i = i + 1;
        }
    }
    push_char(&mut out, '"');
    proof {
        assert(spec_two_byte_escaped(units@, n as int) =~= Seq::<char>::empty());
        assert((prefix + spec_two_byte_escaped(units@, 0)) + Seq::<char>::empty() =~= prefix
            + spec_two_byte_escaped(units@, 0));
        assert(out@ =~= spec_two_byte_quoted(units@));
    }
    out
}


/// A run of spaces.
pub open spec fn spec_spaces(n: int) -> Seq<char>
    decreases n,
{
    if n <= 0 {
        Seq::empty()
    } else {
        spec_spaces(n - 1).push(' ')
    }
}

/// Append a run of spaces.
#[verifier::loop_isolation(false)]
fn push_spaces(out: &mut String, n: u64)
    ensures
        final(out)@ == old(out)@ + spec_spaces(n as int),
{
    let mut k: u64 = 0;
    proof {
        assert(out@ + spec_spaces(0) =~= out@);
    }
    while k < n
        invariant
            k <= n,
            out@ == old(out)@ + spec_spaces(k as int),
        decreases n - k,
    {
        push_char(out, ' ');
        k = k + 1;
    }
}

/// The compact field form of a node: its id in hexadecimal, its coarse
/// type, and each present string or size attribute.
pub open spec fn spec_node_text(n: NodeV) -> Seq<char> {
    let t1 = "Node { id: 0x"@ + spec_hex_text(n.id as int) + ", coarseType: "@ + spec_coarse_name(
        n.coarseType,
    );
    let t2 = t1 + (match n.typeName {
        Some(u) => ", typeName: "@ + spec_two_byte_quoted(u),
        None => Seq::empty(),
    });
    let t3 = t2 + (match n.size {
        Some(s) => ", size: "@ + spec_decimal_text(s as int),
        None => Seq::empty(),
    });
    let t4 = t3 + (match n.JSObjectClassName {
        Some(b) => ", JSObjectClassName: "@ + spec_one_byte_quoted(b),
        None => Seq::empty(),
    });
    let t5 = t4 + (match n.scriptFilename {
        Some(b) => ", scriptFilename: "@ + spec_one_byte_quoted(b),
        None => Seq::empty(),
    });
    let t6 = t5 + (match n.descriptiveTypeName {
        Some(u) => ", descriptiveTypeName: "@ + spec_two_byte_quoted(u),
        None => Seq::empty(),
    });
    t6 + " }"@
}

/// The compact field form of an edge: its name and referent, if present.
pub open spec fn spec_edge_text(e: EdgeV) -> Seq<char> {
    match (e.name, e.referent) {
        (None, None) => "Edge"@,
        (Some(u), None) => "Edge { name: "@ + spec_two_byte_quoted(u) + " }"@,
        (None, Some(r)) => "Edge { referent: 0x"@ + spec_hex_text(r as int) + " }"@,
        (Some(u), Some(r)) => "Edge { name: "@ + spec_two_byte_quoted(u) + ", referent: 0x"@
            + spec_hex_text(r as int) + " }"@,
    }
}

/// Render a node's compact field form. Mirrors [`spec_node_text`].
#[verifier::rlimit(50)]
pub fn node_text(n: &Node) -> (r: String)
    ensures
        r@ == spec_node_text(n@),
{
    let mut out: String = "Node { id: 0x".to_owned();
    let hex = hex_text(n.id.0);
    out.append(hex.as_str());
    out.append(", coarseType: ");
    let cname: &str = match n.coarseType {
        crate::dump::CoarseType::Other => "Other",
        crate::dump::CoarseType::Object => "Object",
        crate::dump::CoarseType::Script => "Script",
        crate::dump::CoarseType::String => "String",
        crate::dump::CoarseType::DOMNode => "DOMNode",
    };
    out.append(cname);
    match &n.typeName {
        Some(u) => {
            out.append(", typeName: ");
            let q = two_byte_quoted(&u.0);
            out.append(q.as_str());
        },
        None => {},
    }
    match &n.size {
        Some(sz) => {
            out.append(", size: ");
            let d = decimal_text(*sz);
            out.append(d.as_str());
        },
        None => {},
    }
    match &n.JSObjectClassName {
        Some(b) => {
            out.append(", JSObjectClassName: ");
            let q = one_byte_quoted(&b.0);
            out.append(q.as_str());
        },
        None => {},
    }
    match &n.scriptFilename {
        Some(b) => {
            out.append(", scriptFilename: ");
            let q = one_byte_quoted(&b.0);
            out.append(q.as_str());
        },
        None => {},
    }
    match &n.descriptiveTypeName {
        Some(u) => {
            out.append(", descriptiveTypeName: ");
            let q = two_byte_quoted(&u.0);
            out.append(q.as_str());
        },
        None => {},
    }
    out.append(" }");
    out
}

/// Render an edge's compact field form. Mirrors [`spec_edge_text`].
pub fn edge_text(e: &Edge) -> (r: String)
    ensures
        r@ == spec_edge_text(e@),
{
    match (&e.name, &e.referent) {
        (None, None) => "Edge".to_owned(),
        (Some(u), None) => {
            let mut out: String = "Edge { name: ".to_owned();
            let q = two_byte_quoted(&u.0);
            out.append(q.as_str());
            out.append(" }");
            out
        },
        (None, Some(r)) => {
            let mut out: String = "Edge { referent: 0x".to_owned();
            let h = hex_text(r.0);
            out.append(h.as_str());
            out.append(" }");
            out
        },
        (Some(u), Some(r)) => {
            let mut out: String = "Edge { name: ".to_owned();
            let q = two_byte_quoted(&u.0);
            out.append(q.as_str());
            out.append(", referent: 0x");
            let h = hex_text(r.0);
            out.append(h.as_str());
            out.append(" }");
            out
        },
    }
}

/// A function value's name: a closure's own, a built-in's, or the partial
/// application of another's.
pub open spec fn spec_fun_name(f: CallableV) -> Seq<char>
    decreases f,
{
    match f {
        CallableV::Closure { name, .. } => name,
        CallableV::Builtin(b) => match b {
            crate::run::BuiltinFn::Edges => "edges"@,
            crate::run::BuiltinFn::First => "first"@,
            crate::run::BuiltinFn::Paths => "paths"@,
            crate::run::BuiltinFn::MapFn => "map"@,
        },
        CallableV::Partial { function, .. } => "partial application of "@ + spec_fun_name(
            *function,
        ),
    }
}

/// A function value's name. Mirrors [`spec_fun_name`].
pub fn fun_name(f: &crate::value::Function) -> (r: String)
    ensures
        r@ == spec_fun_name(f.deep_view()),
    decreases f,
{
    let inner: &crate::value::Callable = crate::shim::rc_get(&f.0);
    proof {
        assert(inner.deep_view() == f.deep_view());
    }
    match inner {
        crate::value::Callable::Closure { name, .. } => name.clone(),
        crate::value::Callable::Builtin(b) => match b {
            crate::run::BuiltinFn::Edges => "edges".to_owned(),
            crate::run::BuiltinFn::First => "first".to_owned(),
            crate::run::BuiltinFn::Paths => "paths".to_owned(),
            crate::run::BuiltinFn::MapFn => "map".to_owned(),
        },
        crate::value::Callable::Partial { function, .. } => {
            let mut out: String = "partial application of ".to_owned();
            let rest = fun_name(function);
            out.append(rest.as_str());
            out
        },
    }
}

/// The rendering of a value: scalars and records on one line; a stream laid
/// out horizontally or vertically at the given indent, its nested streams
/// alternating orientation. A stream's stored error surfaces as the
/// rendering's error.
pub open spec fn spec_write_value(v: ValueV, horiz: bool, indent: int) -> Result<Seq<char>, ErrorV>
    decreases v, 1int,
{
    match v {
        ValueV::Number(n) => Ok(spec_decimal_text(n as int)),
        ValueV::String(s) => Ok(s),
        ValueV::Edge(e) => Ok(spec_edge_text(e)),
        ValueV::Node(n) => Ok(spec_node_text(n)),
        ValueV::Function(f) => Ok("function \""@ + spec_fun_name(f) + seq!['"']),
        ValueV::Stream(s) => if horiz {
            match spec_write_items_h(s.items, s.pos, indent, true) {
                Ok(t) => Ok(seq!['[', ' '] + t),
                Err(e) => Err(e),
            }
        } else {
            match spec_write_items_v(s.items, s.pos, indent) {
                Ok(t) => Ok(seq!['[', '\n'] + t),
                Err(e) => Err(e),
            }
        },
    }
}

/// A horizontal stream's elements, space-separated, closed by a bracket;
/// nested streams are vertical and indented further.
pub open spec fn spec_write_items_h(
    items: Seq<Result<ValueV, ErrorV>>,
    pos: int,
    indent: int,
    first: bool,
) -> Result<Seq<char>, ErrorV>
    decreases items, 2 * (items.len() - pos) + 3,
{
    if pos < 0 || pos >= items.len() {
        Ok(seq![' ', ']'])
    } else {
        match items[pos] {
            Err(e) => Err(e),
            Ok(v) => {
                let nested = if indent <= u64::MAX - 4 {
                    indent + 4
                } else {
                    indent
                };
                match spec_write_value(v, false, nested) {
                    Err(e) => Err(e),
                    Ok(t) => match spec_write_items_h(items, pos + 1, indent, false) {
                        Err(e) => Err(e),
                        Ok(rest) => Ok(
                            (if first {
                                Seq::<char>::empty()
                            } else {
                                seq![' ']
                            }) + t + rest,
                        ),
                    },
                }
            },
        }
    }
}

/// A vertical stream's elements, one per line at the given indent, closed by
/// an indented bracket; nested streams are horizontal at the same indent.
pub open spec fn spec_write_items_v(
    items: Seq<Result<ValueV, ErrorV>>,
    pos: int,
    indent: int,
) -> Result<Seq<char>, ErrorV>
    decreases items, 2 * (items.len() - pos) + 3,
{
    if pos < 0 || pos >= items.len() {
        Ok(spec_spaces(indent) + seq![']'])
    } else {
        match items[pos] {
            Err(e) => Err(e),
            Ok(v) => match spec_write_value(v, true, indent) {
                Err(e) => Err(e),
                Ok(t) => match spec_write_items_v(items, pos + 1, indent) {
                    Err(e) => Err(e),
                    Ok(rest) => Ok(spec_spaces(indent) + t + seq!['\n'] + rest),
                },
            },
        }
    }
}

impl Value {
    /// Render the value. Mirrors [`spec_write_value`].
    #[verifier::loop_isolation(false)]
    pub fn write(&self, horiz: bool, indent: u64) -> (r: Result<String, Error>)
        ensures
            match r {
                Ok(t) => spec_write_value(self.deep_view(), horiz, indent as int) == Ok::<
                    Seq<char>,
                    ErrorV,
                >(t@),
                Err(e) => spec_write_value(self.deep_view(), horiz, indent as int) == Err::<
                    Seq<char>,
                    ErrorV,
                >(e@),
            },
        decreases self, 1int,
    {
        match self {
            Value::Number(n) => Ok(decimal_text(*n)),
            Value::String(s) => Ok(s.clone()),
            Value::Edge(e) => Ok(edge_text(e)),
            Value::Node(n) => Ok(node_text(n)),
            Value::Function(f) => {
                let mut out: String = "function \"".to_owned();
                let name = fun_name(f);
                out.append(name.as_str());
                push_char(&mut out, '"');
                proof {
                    assert(out@ =~= "function \""@ + spec_fun_name(f.deep_view()) + seq!['"']);
                }
                Ok(out)
            },
            Value::Stream(s) => {
                let ghost itemsv = crate::value::deep_view_items(s.items@);
                let items = crate::shim::rc_get(&s.items);
                proof {
                    assert(itemsv == crate::value::deep_view_items(items@));
                }
                if horiz {
                    let mut out = String::new();
                    push_char(&mut out, '[');
                    push_char(&mut out, ' ');
                    let mut pos = s.pos;
                    let mut first = true;
                    let ghost prefix = out@;
                    proof {
                        assert(prefix =~= seq!['[', ' ']);
                    }
                    while pos < items.len()
                        invariant
                            s.pos <= pos || s.pos >= items@.len(),
                            itemsv == crate::value::deep_view_items(items@),
                            (match spec_write_items_h(itemsv, pos as int, indent as int, first) {
                                Ok(rest) => spec_write_items_h(
                                    itemsv,
                                    s.pos as int,
                                    indent as int,
                                    true,
                                ) matches Ok(whole) && prefix + whole == out@ + rest,
                                Err(e) => spec_write_items_h(
                                    itemsv,
                                    s.pos as int,
                                    indent as int,
                                    true,
                                ) == Err::<Seq<char>, ErrorV>(e),
                            }),
                        decreases items@.len() - pos,
                    {
                        let ghost out0 = out@;
                        proof {
                            assert(itemsv[pos as int] == (match items@[pos as int] {
                                Ok(x) => Ok::<ValueV, ErrorV>(x.deep_view()),
                                Err(e) => Err::<ValueV, ErrorV>(e@),
                            }));
                        }
                        match &items[pos] {
                            Err(e) => {
                                return Err(e.duplicate());
                            },
                            Ok(v) => {
                                let nested: u64 = if indent <= u64::MAX - 4 {
                                    indent + 4
                                } else {
                                    indent
                                };
                                proof {
                                    assert(v.deep_view() == itemsv[pos as int]->Ok_0);
                                    assert(nested as int == (if indent as int <= u64::MAX - 4 {
                                        indent as int + 4
                                    } else {
                                        indent as int
                                    }));
                                }
                                let t = match v.write(false, nested) {
                                    Ok(t) => t,
                                    Err(e) => {
                                        return Err(e);
                                    },
                                };
                                proof {
                                    assert(spec_write_value(
                                        itemsv[pos as int]->Ok_0,
                                        false,
                                        nested as int,
                                    ) == Ok::<Seq<char>, ErrorV>(t@));
                                }
                                if !first {
                                    push_char(&mut out, ' ');
                                }
                                out.append(t.as_str());
                                proof {
                                    let sep: Seq<char> = if first {
                                        Seq::<char>::empty()
                                    } else {
                                        seq![' ']
                                    };
                                    assert(out@ =~= out0 + sep + t@);
                                    let cur = spec_write_items_h(
                                        itemsv,
                                        pos as int,
                                        indent as int,
                                        first,
                                    );
                                    let nxt = spec_write_items_h(
                                        itemsv,
                                        pos as int + 1,
                                        indent as int,
                                        false,
                                    );
                                    assert(cur == (match nxt {
                                        Ok(rest_next) => Ok::<Seq<char>, ErrorV>(
                                            sep + t@ + rest_next,
                                        ),
                                        Err(e) => Err::<Seq<char>, ErrorV>(e),
                                    }));
                                    match nxt {
                                        Ok(rest_next) => {
                                            assert(out@ + rest_next =~= out0 + (sep + t@
                                                + rest_next));
                                        },
                                        Err(_) => {},
                                    }
                                }
                                first = false;
                            },
                        }
                        pos = pos + 1;
                    }
                    let ghost out_end = out@;
                    push_char(&mut out, ' ');
                    push_char(&mut out, ']');
                    proof {
                        assert(out@ =~= out_end + seq![' ', ']']);
                        let whole = spec_write_items_h(
                            itemsv,
                            s.pos as int,
                            indent as int,
                            true,
                        )->Ok_0;
                        assert(prefix + whole =~= out@);
                        assert(prefix + whole == out@);
                    }
                    Ok(out)
                } else {
                    let mut out = String::new();
                    push_char(&mut out, '[');
                    push_char(&mut out, '\n');
                    let mut pos = s.pos;
                    let ghost prefix = out@;
                    proof {
                        assert(prefix =~= seq!['[', '\n']);
                    }
                    while pos < items.len()
                        invariant
                            s.pos <= pos || s.pos >= items@.len(),
                            itemsv == crate::value::deep_view_items(items@),
                            (match spec_write_items_v(itemsv, pos as int, indent as int) {
                                Ok(rest) => spec_write_items_v(
                                    itemsv,
                                    s.pos as int,
                                    indent as int,
                                ) matches Ok(whole) && prefix + whole == out@ + rest,
                                Err(e) => spec_write_items_v(itemsv, s.pos as int, indent as int)
                                    == Err::<Seq<char>, ErrorV>(e),
                            }),
                        decreases items@.len() - pos,
                    {
                        let ghost out0 = out@;
                        proof {
                            assert(itemsv[pos as int] == (match items@[pos as int] {
                                Ok(x) => Ok::<ValueV, ErrorV>(x.deep_view()),
                                Err(e) => Err::<ValueV, ErrorV>(e@),
                            }));
                        }
                        match &items[pos] {
                            Err(e) => {
                                return Err(e.duplicate());
                            },
                            Ok(v) => {
                                proof {
                                    assert(v.deep_view() == itemsv[pos as int]->Ok_0);
                                }
                                let t = match v.write(true, indent) {
                                    Ok(t) => t,
                                    Err(e) => {
                                        return Err(e);
                                    },
                                };
                                proof {
                                    assert(spec_write_value(
                                        itemsv[pos as int]->Ok_0,
                                        true,
                                        indent as int,
                                    ) == Ok::<Seq<char>, ErrorV>(t@));
                                }
                                push_spaces(&mut out, indent);
                                out.append(t.as_str());
                                push_char(&mut out, '\n');
                                proof {
                                    assert(out@ =~= out0 + spec_spaces(indent as int) + t@
                                        + seq!['\n']);
                                    let cur = spec_write_items_v(itemsv, pos as int, indent as int);
                                    let nxt = spec_write_items_v(
                                        itemsv,
                                        pos as int + 1,
                                        indent as int,
                                    );
                                    assert(cur == (match nxt {
                                        Ok(rest_next) => Ok::<Seq<char>, ErrorV>(
                                            spec_spaces(indent as int) + t@ + seq!['\n']
                                                + rest_next,
                                        ),
                                        Err(e) => Err::<Seq<char>, ErrorV>(e),
                                    }));
                                    match nxt {
                                        Ok(rest_next) => {
                                            assert(out@ + rest_next =~= out0 + (spec_spaces(
                                                indent as int,
                                            ) + t@ + seq!['\n'] + rest_next));
                                        },
                                        Err(_) => {},
                                    }
                                }
                            },
                        }
                        pos = pos + 1;
                    }
                    let ghost out_end = out@;
                    push_spaces(&mut out, indent);
                    push_char(&mut out, ']');
                    proof {
                        assert(out@ =~= out_end + (spec_spaces(indent as int) + seq![']']));
                        let whole = spec_write_items_v(itemsv, s.pos as int, indent as int)->Ok_0;
                        assert(prefix + whole =~= out@);
                        assert(prefix + whole == out@);
                    }
                    Ok(out)
                }
            },
        }
    }

    /// Render the value as the top level prints it: vertical, unindented.
    pub fn top_write(&self) -> (r: Result<String, Error>)
        ensures
            match r {
                Ok(t) => spec_write_value(self.deep_view(), false, 0) == Ok::<Seq<char>, ErrorV>(
                    t@,
                ),
                Err(e) => spec_write_value(self.deep_view(), false, 0) == Err::<Seq<char>, ErrorV>(
                    e@,
                ),
            },
    {
        self.write(false, 0)
    }
}

} // verus!


