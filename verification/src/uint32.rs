//! A 32-bit number as it crosses the JSON interface: `0x` and its
//! hexadecimal digits, in lower case, without leading zeros.

use vstd::prelude::*;
use vstd::string::StringSliceAdditionalSpecFns;

verus! {

/// A 32-bit number that is written as hexadecimal text.
#[derive(Clone, Copy, Default, PartialEq, Eq, Hash, Debug, Structural)]
pub struct Uint32(pub u32);

/// Why a text is not a `Uint32`.
#[derive(Clone, Copy, Debug, PartialEq, Eq, Structural)]
pub enum Uint32Error {
    /// The text does not begin with `0x`.
    MissingPrefix,
    /// Nothing follows the prefix.
    Empty,
    /// A character that is no hexadecimal digit.
    InvalidDigit,
    /// The number exceeds 32 bits.
    Overflow,
}

impl Uint32Error {
    /// The reason in words.
    pub fn message(&self) -> (r: &'static str)
        ensures
            *self == Uint32Error::MissingPrefix ==> r@ == "without `0x` prefix"@,
            *self == Uint32Error::Empty ==> r@ == "cannot parse integer from empty string"@,
            *self == Uint32Error::InvalidDigit ==> r@ == "invalid digit found in string"@,
            *self == Uint32Error::Overflow ==> r@ == "number too large to fit in target type"@,
    {
        match self {
            Uint32Error::MissingPrefix => "without `0x` prefix",
            Uint32Error::Empty => "cannot parse integer from empty string",
            Uint32Error::InvalidDigit => "invalid digit found in string",
            Uint32Error::Overflow => "number too large to fit in target type",
        }
    }
}

/// The value of a hexadecimal digit, in either case.
pub open spec fn hex_digit(b: u8) -> Option<u32> {
    if 48 <= b <= 57 {
        Some((b - 48) as u32)
    } else if 97 <= b <= 102 {
        Some((b - 87) as u32)
    } else if 65 <= b <= 70 {
        Some((b - 55) as u32)
    } else {
        None
    }
}

/// The lower-case digit of a value below 16.
pub open spec fn digit_char(d: int) -> u8 {
    if d < 10 {
        (48 + d) as u8
    } else {
        (87 + d) as u8
    }
}

/// The hexadecimal digits of `n`, most significant first, without leading
/// zeros; a single `0` for zero.
pub open spec fn hex_digits(n: nat) -> Seq<u8>
    decreases n,
{
    if n < 16 {
        seq![digit_char(n as int)]
    } else {
        hex_digits(n / 16).push(digit_char((n % 16) as int))
    }
}

/// The text of `n`: `0x` and the digits.
pub open spec fn hex_text(n: u32) -> Seq<u8> {
    seq![48u8, 120u8] + hex_digits(n as nat)
}

/// The number that the first `n` digits of `s` spell, read from the left;
/// the first fault on the way otherwise.
pub open spec fn parse_digits(s: Seq<u8>, n: int) -> Result<u32, Uint32Error>
    decreases n,
{
    if n <= 0 {
        Ok(0)
    } else {
        match parse_digits(s, n - 1) {
            Err(e) => Err(e),
            Ok(v) => match hex_digit(s[n - 1]) {
                None => Err(Uint32Error::InvalidDigit),
                Some(d) => if v * 16 + d > u32::MAX {
                    Err(Uint32Error::Overflow)
                } else {
                    Ok((v * 16 + d) as u32)
                },
            },
        }
    }
}

/// The number that `s` spells in base 16: an optional `+`, then at least
/// one digit.
pub open spec fn parse_radix16(s: Seq<u8>) -> Result<u32, Uint32Error> {
    if s.len() == 0 {
        Err(Uint32Error::Empty)
    } else {
        let digits = if s[0] == 43u8 {
            s.subrange(1, s.len() as int)
        } else {
            s
        };
        if digits.len() == 0 {
            Err(Uint32Error::InvalidDigit)
        } else {
            parse_digits(digits, digits.len() as int)
        }
    }
}

/// The number that a text with the prefix `0x` spells.
pub open spec fn parse_text(s: Seq<u8>) -> Result<u32, Uint32Error> {
    if s.len() >= 2 && s[0] == 48u8 && s[1] == 120u8 {
        parse_radix16(s.subrange(2, s.len() as int))
    } else {
        Err(Uint32Error::MissingPrefix)
    }
}

proof fn lemma_parse_digits_fails(s: Seq<u8>, i: int, n: int)
    requires
        0 <= i <= n,
        parse_digits(s, i).is_err(),
    ensures
        parse_digits(s, n) == parse_digits(s, i),
    decreases n - i,
{
    if i < n {
        lemma_parse_digits_fails(s, i, n - 1);
    }
}

proof fn lemma_parse_digits_prefix(a: Seq<u8>, b: Seq<u8>, n: int)
    requires
        0 <= n <= a.len(),
        n <= b.len(),
        forall|i: int| 0 <= i < n ==> a[i] == b[i],
    ensures
        parse_digits(a, n) == parse_digits(b, n),
    decreases n,
{
    if n > 0 {
        lemma_parse_digits_prefix(a, b, n - 1);
    }
}

proof fn lemma_digits_are_read(n: nat)
    requires
        n <= u32::MAX,
    ensures
        hex_digits(n).len() >= 1,
        parse_digits(hex_digits(n), hex_digits(n).len() as int) == Ok::<u32, Uint32Error>(n as u32),
        hex_digits(n)[0] != 43u8,
    decreases n,
{
    if n < 16 {
        let s = hex_digits(n);
        assert(s.len() == 1);
        assert(parse_digits(s, 0) == Ok::<u32, Uint32Error>(0));
        assert(hex_digit(digit_char(n as int)) == Some(n as u32));
    } else {
        let head = hex_digits(n / 16);
        let last = digit_char((n % 16) as int);
        let s = head.push(last);
        lemma_digits_are_read(n / 16);
        lemma_parse_digits_prefix(s, head, head.len() as int);
        assert(hex_digit(last) == Some((n % 16) as u32));
        assert(s[head.len() as int] == last);
        assert(s[0] == head[0]);
        assert((n / 16) * 16 + n % 16 == n);
    }
}

/// The text of a number is read as the number.
pub proof fn lemma_hex_round_trip(value: u32)
    ensures
        parse_text(hex_text(value)) == Ok::<u32, Uint32Error>(value),
{
    lemma_digits_are_read(value as nat);
    let text = hex_text(value);
    let digits = hex_digits(value as nat);
    assert(text.subrange(2, text.len() as int) =~= digits);
    assert(text[0] == 48u8 && text[1] == 120u8);
}

fn push_hex(n: u32, out: &mut Vec<u8>)
    ensures
        final(out)@ == old(out)@ + hex_digits(n as nat),
    decreases n,
{
    if n >= 16 {
        push_hex(n / 16, out);
    }
    let d: u8 = (n % 16) as u8;
    let c: u8 = if d < 10 {
        48 + d
    } else {
        87 + d
    };
    out.push(c);
    proof {
        if n >= 16 {
            assert(out@ =~= old(out)@ + hex_digits((n / 16) as nat).push(
                digit_char((n % 16) as int),
            ));
        } else {
            assert(out@ =~= old(out)@ + seq![digit_char(n as int)]);
        }
    }
}

impl Uint32 {
    /// The number.
    pub fn value(&self) -> (r: u32)
        ensures
            r == self.0,
    {
        self.0
    }

    /// The text of the number, as ASCII bytes.
    pub fn to_hex(&self) -> (r: Vec<u8>)
        ensures
            r@ == hex_text(self.0),
    {
        let mut out: Vec<u8> = Vec::new();
        out.push(48u8);
        out.push(120u8);
        assert(out@ =~= seq![48u8, 120u8]);
        push_hex(self.0, &mut out);
        out
    }

    /// Reads a number from the bytes of a text. Succeeds exactly on `0x`,
    /// an optional `+` and hexadecimal digits that spell a number of at
    /// most 32 bits; otherwise names the first fault from the left.
    pub fn from_hex(text: &[u8]) -> (r: Result<Uint32, Uint32Error>)
        ensures
            match r {
                Ok(v) => parse_text(text@) == Ok::<u32, Uint32Error>(v.0),
                Err(e) => parse_text(text@) == Err::<u32, Uint32Error>(e),
            },
    {
        if text.len() < 2 || text[0] != 48u8 || text[1] != 120u8 {
            return Err(Uint32Error::MissingPrefix);
        }
        if text.len() == 2 {
            return Err(Uint32Error::Empty);
        }
        let start: usize = if text[2] == 43u8 {
            3
        } else {
            2
        };
        if start == text.len() {
            return Err(Uint32Error::InvalidDigit);
        }
        let ghost body = text@.subrange(2, text@.len() as int);
        let ghost digits = text@.subrange(start as int, text@.len() as int);
        assert(digits =~= (if body[0] == 43u8 {
            body.subrange(1, body.len() as int)
        } else {
            body
        }));
        assert(parse_text(text@) == parse_digits(digits, digits.len() as int));
        let mut value: u32 = 0;
        let mut i: usize = start;
        while i < text.len()
            invariant
                start <= i <= text.len(),
                digits == text@.subrange(start as int, text@.len() as int),
                parse_text(text@) == parse_digits(digits, digits.len() as int),
                parse_digits(digits, i - start) == Ok::<u32, Uint32Error>(value),
            decreases text.len() - i,
        {
            let b = text[i];
            assert(digits[i - start] == b);
            let d: u32 = if 48 <= b && b <= 57 {
                (b - 48) as u32
            } else if 97 <= b && b <= 102 {
                (b - 87) as u32
            } else if 65 <= b && b <= 70 {
                (b - 55) as u32
            } else {
                proof {
                    lemma_parse_digits_fails(digits, i - start + 1, digits.len() as int);
                }
                return Err(Uint32Error::InvalidDigit);
            };
            if value > (u32::MAX - d) / 16 {
                proof {
                    lemma_parse_digits_fails(digits, i - start + 1, digits.len() as int);
                }
                return Err(Uint32Error::Overflow);
            }
            value = value * 16 + d;
            i += 1;
        }
        Ok(Uint32(value))
    }

    /// Reads a number from a text.
    pub fn from_hex_str(text: &str) -> (r: Result<Uint32, Uint32Error>)
        ensures
            match r {
                Ok(v) => parse_text(text.spec_bytes()) == Ok::<u32, Uint32Error>(v.0),
                Err(e) => parse_text(text.spec_bytes()) == Err::<u32, Uint32Error>(e),
            },
    {
        Self::from_hex(text.as_bytes())
    }
}

impl From<u32> for Uint32 {
    fn from(value: u32) -> (r: Self) {
        Uint32(value)
    }
}

impl vstd::std_specs::convert::FromSpecImpl<u32> for Uint32 {
    open spec fn obeys_from_spec() -> bool {
        true
    }

    open spec fn from_spec(value: u32) -> Self {
        Uint32(value)
    }
}

} // verus!
