//! Parsing of command bytes given on the command line: `0x`/`0X` followed
//! by hexadecimal digits, or decimal digits, with the rules of Rust's
//! integer parsing for `u8`.

use vstd::prelude::*;
use vstd::string::StringSliceAdditionalSpecFns;

verus! {

/// Why a command byte could not be parsed.
#[derive(Debug, Clone, Copy, PartialEq, Eq)]
pub enum ByteParseError {
    /// No digits at all.
    Empty,
    /// A character that is not a digit of the radix, or a lone sign.
    InvalidDigit,
    /// The number does not fit in a byte.
    PosOverflow,
}

impl ByteParseError {
    /// The message Rust's integer parsing gives for this error.
    pub fn message(&self) -> (m: &'static str)
        ensures
            m@ == spec_error_message(*self),
    {
        match self {
            ByteParseError::Empty => "cannot parse integer from empty string",
            ByteParseError::InvalidDigit => "invalid digit found in string",
            ByteParseError::PosOverflow => "number too large to fit in target type",
        }
    }
}

/// The message of each parse error.
pub open spec fn spec_error_message(e: ByteParseError) -> Seq<char> {
    match e {
        ByteParseError::Empty => "cannot parse integer from empty string"@,
        ByteParseError::InvalidDigit => "invalid digit found in string"@,
        ByteParseError::PosOverflow => "number too large to fit in target type"@,
    }
}

/// Value of the ASCII digit `b` in `radix` (at most 36): `0`-`9`, then
/// `a`-`z` or `A`-`Z` for ten and up; `None` when `b` is no digit of the
/// radix.
pub open spec fn digit_value(b: u8, radix: nat) -> Option<nat> {
    let d: int = if 0x30 <= b <= 0x39 {
        b - 0x30
    } else if 0x61 <= b <= 0x7A {
        b - 0x61 + 10
    } else if 0x41 <= b <= 0x5A {
        b - 0x41 + 10
    } else {
        36
    };
    if d < radix {
        Some(d as nat)
    } else {
        None
    }
}

/// Reads `digits` from the left into `acc`: the first byte that is no digit
/// gives `InvalidDigit`, the first digit that takes the value past 255
/// gives `PosOverflow`.
pub open spec fn scan_digits(acc: nat, digits: Seq<u8>, radix: nat) -> Result<u8, ByteParseError>
    decreases digits.len(),
{
    if digits.len() == 0 {
        Ok(acc as u8)
    } else {
        match digit_value(digits[0], radix) {
            None => Err(ByteParseError::InvalidDigit),
            Some(d) => if acc * radix + d > 255 {
                Err(ByteParseError::PosOverflow)
            } else {
                scan_digits(acc * radix + d, digits.drop_first(), radix)
            },
        }
    }
}

/// `u8` parsing of the bytes `s` in `radix`: empty input is `Empty`, a lone
/// `+` or `-` is `InvalidDigit`, one leading `+` is allowed, and the rest
/// must be digits.
pub open spec fn spec_parse_u8_radix(s: Seq<u8>, radix: nat) -> Result<u8, ByteParseError> {
    if s.len() == 0 {
        Err(ByteParseError::Empty)
    } else if s.len() == 1 && (s[0] == 0x2B || s[0] == 0x2D) {
        Err(ByteParseError::InvalidDigit)
    } else if s[0] == 0x2B {
        scan_digits(0, s.drop_first(), radix)
    } else {
        scan_digits(0, s, radix)
    }
}

/// Whether the text starts with `0x` or `0X`.
pub open spec fn has_hex_prefix(s: Seq<u8>) -> bool {
    s.len() >= 2 && s[0] == 0x30 && (s[1] == 0x78 || s[1] == 0x58)
}

/// A command byte given as `0x`/`0X` and hexadecimal digits, or in decimal.
pub open spec fn spec_parse_command_byte(s: Seq<u8>) -> Result<u8, ByteParseError> {
    if has_hex_prefix(s) {
        spec_parse_u8_radix(s.skip(2), 16)
    } else {
        spec_parse_u8_radix(s, 10)
    }
}

/// Value of the ASCII digit `b` in `radix`, or `None`.
fn digit_of(b: u8, radix: u8) -> (r: Option<u8>)
    requires
        2 <= radix <= 36,
    ensures
        match digit_value(b, radix as nat) {
            Some(d) => r == Some(d as u8),
            None => r is None,
        },
{
    let d: u8 = if 0x30 <= b && b <= 0x39 {
        b - 0x30
    } else if 0x61 <= b && b <= 0x7A {
        b - 0x61 + 10
    } else if 0x41 <= b && b <= 0x5A {
        b - 0x41 + 10
    } else {
        36
    };
    if d < radix {
        Some(d)
    } else {
        None
    }
}

/// Parses the bytes of `s` from index `from` on as a `u8` in `radix`.
fn parse_u8_radix(s: &[u8], from: usize, radix: u8) -> (r: Result<u8, ByteParseError>)
    requires
        from <= s@.len(),
        2 <= radix <= 16,
    ensures
        r == spec_parse_u8_radix(s@.skip(from as int), radix as nat),
{
    let ghost text = s@.skip(from as int);
    let len = s.len();
    if from == len {
        return Err(ByteParseError::Empty);
    }
    let first = s[from];
    if from + 1 == len && (first == 0x2B || first == 0x2D) {
        return Err(ByteParseError::InvalidDigit);
    }
    let mut i: usize = if first == 0x2B { from + 1 } else { from };
    proof {
        if first == 0x2B {
            assert(text.drop_first() =~= s@.skip(i as int));
        } else {
            assert(text =~= s@.skip(i as int));
        }
    }
    let mut acc: u32 = 0;
    while i < len
        invariant
            from <= i <= len,
            len == s@.len(),
            text == s@.skip(from as int),
            2 <= radix <= 16,
            acc <= 255,
            scan_digits(acc as nat, s@.skip(i as int), radix as nat) == spec_parse_u8_radix(
                text,
                radix as nat,
            ),
        decreases len - i,
    {
        let ghost rest = s@.skip(i as int);
        assert(rest.len() > 0 && rest[0] == s@[i as int]);
        assert(rest.drop_first() =~= s@.skip(i + 1));
        match digit_of(s[i], radix) {
            None => {
                return Err(ByteParseError::InvalidDigit);
            },
            Some(d) => {
                assert(acc * radix <= 255 * 16) by (nonlinear_arith)
                    requires
                        acc <= 255,
                        radix <= 16,
                ;
                let next: u32 = acc * (radix as u32) + (d as u32);
                if next > 255 {
                    return Err(ByteParseError::PosOverflow);
                }
                acc = next;
            },
        }
        i = i + 1;
    }
    assert(s@.skip(i as int).len() == 0);
    Ok(acc as u8)
}

/// Parses a command byte given on the command line: after `0x` or `0X` the
/// rest is read in hexadecimal, otherwise the whole text in decimal, each
/// with the rules of Rust's `u8` parsing (one leading `+` allowed, errors
/// for empty text, stray characters and values above 255).
pub fn parse_command_byte(text: &str) -> (r: Result<u8, ByteParseError>)
    ensures
        r == spec_parse_command_byte(text.spec_bytes()),
{
    let s = text.as_bytes();
    if s.len() >= 2 && s[0] == 0x30 && (s[1] == 0x78 || s[1] == 0x58) {
        parse_u8_radix(s, 2, 16)
    } else {
        assert(s@.skip(0) =~= s@);
        parse_u8_radix(s, 0, 10)
    }
}

/// The numeral value of an ASCII character: `0`-`9` are 0 to 9, `a`-`f`
/// and `A`-`F` are 10 to 15; any other character has none (-1).
pub open spec fn numeral_digit(c: u8) -> int {
    if 0x30 <= c <= 0x39 {
        c - 0x30
    } else if 0x61 <= c <= 0x66 {
        c - 0x61 + 10
    } else if 0x41 <= c <= 0x46 {
        c - 0x41 + 10
    } else {
        -1
    }
}

/// Whether every character of `t` is a numeral digit below `radix`.
pub open spec fn all_numeral_digits(t: Seq<u8>, radix: int) -> bool {
    forall|k: int| 0 <= k < t.len() ==> 0 <= #[trigger] numeral_digit(t[k]) < radix
}

/// The number the digits `t` denote in `radix`, most significant first.
pub open spec fn numeral_value(t: Seq<u8>, radix: int) -> int
    decreases t.len(),
{
    if t.len() == 0 {
        0
    } else {
        numeral_value(t.drop_last(), radix) * radix + numeral_digit(t.last())
    }
}

/// Appending one byte to digits that were read without error.
proof fn lemma_scan_push(acc: nat, t: Seq<u8>, c: u8, radix: nat)
    requires
        acc <= 255,
        2 <= radix <= 16,
    ensures
        scan_digits(acc, t, radix) is Err ==> scan_digits(acc, t.push(c), radix) == scan_digits(
            acc,
            t,
            radix,
        ),
        scan_digits(acc, t, radix) matches Ok(v) ==> scan_digits(acc, t.push(c), radix) == (match digit_value(
            c,
            radix,
        ) {
            None => Err(ByteParseError::InvalidDigit),
            Some(d) => if v * radix + d > 255 {
                Err(ByteParseError::PosOverflow)
            } else {
                Ok((v * radix + d) as u8)
            },
        }),
    decreases t.len(),
{
    reveal_with_fuel(scan_digits, 2);
    if t.len() == 0 {
        assert(t.push(c).drop_first() =~= Seq::<u8>::empty());
        assert(t.push(c)[0] == c);
    } else {
        assert(t.push(c)[0] == t[0]);
        assert(t.push(c).drop_first() =~= t.drop_first().push(c));
        match digit_value(t[0], radix) {
            None => {},
            Some(d) => {
                if acc * radix + d <= 255 {
                    lemma_scan_push(acc * radix + d, t.drop_first(), c, radix);
                }
            },
        }
    }
}

/// Reading digits from the left gives their numeral value, or `PosOverflow`
/// when that value exceeds 255.
proof fn lemma_scan_value(t: Seq<u8>, radix: nat)
    requires
        2 <= radix <= 16,
        all_numeral_digits(t, radix as int),
    ensures
        numeral_value(t, radix as int) >= 0,
        scan_digits(0, t, radix) == (if numeral_value(t, radix as int) <= 255 {
            Ok(numeral_value(t, radix as int) as u8)
        } else {
            Err(ByteParseError::PosOverflow)
        }),
    decreases t.len(),
{
    if t.len() > 0 {
        let p = t.drop_last();
        let c = t.last();
        assert(all_numeral_digits(p, radix as int)) by {
            assert forall|k: int| 0 <= k < p.len() implies 0 <= #[trigger] numeral_digit(p[k])
                < radix by {
                assert(p[k] == t[k]);
            }
        }
        assert(0 <= numeral_digit(t[t.len() - 1]) < radix);
        lemma_scan_value(p, radix);
        lemma_scan_push(0, p, c, radix);
        assert(p.push(c) =~= t);
        let vp = numeral_value(p, radix as int);
        let d = numeral_digit(c);
        assert(digit_value(c, radix) == Some(d as nat));
        assert(vp * radix + d >= 0) by (nonlinear_arith)
            requires
                vp >= 0,
                radix >= 2,
                d >= 0,
        ;
        if vp > 255 {
            assert(vp * radix + d > 255) by (nonlinear_arith)
                requires
                    vp > 255,
                    radix >= 2,
                    d >= 0,
            ;
        }
    }
}

/// A command byte written as `0x` or `0X` followed by hexadecimal digits (of
/// either case) parses to the number those digits denote when it is at most
/// 255, and to `PosOverflow` when it is larger; the two prefixes give the
/// same result for every text that follows them.
pub proof fn lemma_parse_hex_command_byte(t: Seq<u8>)
    ensures
        spec_parse_command_byte(seq![0x30u8, 0x78u8] + t) == spec_parse_command_byte(
            seq![0x30u8, 0x58u8] + t,
        ),
        t.len() > 0 && all_numeral_digits(t, 16) ==> spec_parse_command_byte(
            seq![0x30u8, 0x78u8] + t,
        ) == (if numeral_value(t, 16) <= 255 {
            Ok(numeral_value(t, 16) as u8)
        } else {
            Err(ByteParseError::PosOverflow)
        }),
{
    let lower = seq![0x30u8, 0x78u8] + t;
    let upper = seq![0x30u8, 0x58u8] + t;
    assert(has_hex_prefix(lower));
    assert(has_hex_prefix(upper));
    assert(lower.skip(2) =~= t);
    assert(upper.skip(2) =~= t);
    if t.len() > 0 && all_numeral_digits(t, 16) {
        assert(0 <= numeral_digit(t[0]) < 16);
        lemma_scan_value(t, 16);
    }
}

/// A command byte written in decimal digits parses to the number they
/// denote when it is at most 255, and to `PosOverflow` when it is larger.
pub proof fn lemma_parse_decimal_command_byte(t: Seq<u8>)
    requires
        t.len() > 0,
        all_numeral_digits(t, 10),
    ensures
        spec_parse_command_byte(t) == (if numeral_value(t, 10) <= 255 {
            Ok(numeral_value(t, 10) as u8)
        } else {
            Err(ByteParseError::PosOverflow)
        }),
{
    assert(0 <= numeral_digit(t[0]) < 10);
    if t.len() >= 2 {
        assert(0 <= numeral_digit(t[1]) < 10);
    }
    assert(!has_hex_prefix(t));
    lemma_scan_value(t, 10);
}

} // verus!
