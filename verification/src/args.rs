//! Command-line arguments of the benchmark drivers: unsigned integers in
//! decimal or hexadecimal, read as Rust's `from_str_radix` reads them.

use vstd::prelude::*;

verus! {

/// Why a number could not be read (the kinds of Rust's `ParseIntError`).
#[derive(Debug, Clone, Copy, PartialEq, Eq, Structural)]
pub enum IntErrorKind {
    /// The text is empty.
    Empty,
    /// A character is not a digit of the radix (or the text is a lone sign).
    InvalidDigit,
    /// The number does not fit the target type.
    PosOverflow,
}

/// The value of the ASCII digit `c` in `radix` (digits, then letters of
/// either case from 10 on), if it is one.
pub open spec fn digit_value(c: u8, radix: nat) -> Option<nat> {
    let v: int = if 0x30 <= c <= 0x39 {
        c - 0x30
    } else if 0x61 <= c <= 0x7a {
        c - 0x61 + 10
    } else if 0x41 <= c <= 0x5a {
        c - 0x41 + 10
    } else {
        36
    };
    if v < radix { Some(v as nat) } else { None }
}

/// Reads the digits of `s` left to right after the value `acc`: the first
/// character that is no digit, or the first digit after which the value
/// exceeds `max`, ends the reading with an error.
pub open spec fn scan_digits(s: Seq<u8>, radix: nat, max: nat, acc: nat) -> Result<nat, IntErrorKind>
    decreases s.len(),
{
    if s.len() == 0 {
        Ok(acc)
    } else {
        match digit_value(s[0], radix) {
            None => Err(IntErrorKind::InvalidDigit),
            Some(d) => if acc * radix + d > max {
                Err(IntErrorKind::PosOverflow)
            } else {
                scan_digits(s.drop_first(), radix, max, acc * radix + d)
            },
        }
    }
}

/// How `from_str_radix` reads `s` into an unsigned type whose largest value
/// is `max`: an optional leading `+`, then at least one digit.
pub open spec fn parse_unsigned_spec(s: Seq<u8>, radix: nat, max: nat) -> Result<nat, IntErrorKind> {
    if s.len() == 0 {
        Err(IntErrorKind::Empty)
    } else if s.len() == 1 && (s[0] == 0x2b || s[0] == 0x2d) {
        Err(IntErrorKind::InvalidDigit)
    } else if s[0] == 0x2b {
        scan_digits(s.drop_first(), radix, max, 0)
    } else {
        scan_digits(s, radix, max, 0)
    }
}

/// `s` with every leading "0x" removed, as `trim_start_matches("0x")` does.
pub open spec fn strip_hex_prefix(s: Seq<u8>) -> Seq<u8>
    decreases s.len(),
{
    if s.len() >= 2 && s[0] == 0x30 && s[1] == 0x78 {
        strip_hex_prefix(s.skip(2))
    } else {
        s
    }
}

/// A number in hexadecimal, after leading "0x" prefixes.
pub open spec fn hex_spec(s: Seq<u8>, max: nat) -> Result<nat, IntErrorKind> {
    parse_unsigned_spec(strip_hex_prefix(s), 16, max)
}

/// A number in decimal.
pub open spec fn dec_spec(s: Seq<u8>, max: nat) -> Result<nat, IntErrorKind> {
    parse_unsigned_spec(s, 10, max)
}

fn digit(c: u8, radix: u32) -> (d: Option<u32>)
    requires
        2 <= radix <= 36,
    ensures
        d matches Some(v) ==> digit_value(c, radix as nat) == Some(v as nat),
        d is None ==> digit_value(c, radix as nat) is None,
{
    let v: u32 = if 0x30 <= c && c <= 0x39 {
        (c - 0x30) as u32
    } else if 0x61 <= c && c <= 0x7a {
        (c - 0x61 + 10) as u32
    } else if 0x41 <= c && c <= 0x5a {
        (c - 0x41 + 10) as u32
    } else {
        36
    };
    if v < radix { Some(v) } else { None }
}

/// A successful reading never exceeds the largest value allowed.
pub proof fn lemma_scan_bound(s: Seq<u8>, radix: nat, max: nat, acc: nat)
    requires
        acc <= max,
    ensures
        scan_digits(s, radix, max, acc) matches Ok(v) ==> v <= max,
    decreases s.len(),
{
    if s.len() > 0 {
        if let Some(d) = digit_value(s[0], radix) {
            if acc * radix + d <= max {
                lemma_scan_bound(s.drop_first(), radix, max, acc * radix + d);
            }
        }
    }
}

/// A number read successfully never exceeds the largest value of its type.
pub proof fn lemma_parse_bound(s: Seq<u8>, radix: nat, max: nat)
    ensures
        parse_unsigned_spec(s, radix, max) matches Ok(v) ==> v <= max,
{
    lemma_scan_bound(s, radix, max, 0);
    if s.len() > 0 {
        lemma_scan_bound(s.drop_first(), radix, max, 0);
    }
}

proof fn lemma_scan_step(s: Seq<u8>, radix: nat, max: nat, acc: nat, i: int)
    requires
        0 <= i < s.len(),
    ensures
        scan_digits(s.skip(i), radix, max, acc) == match digit_value(s[i], radix) {
            None => Err(IntErrorKind::InvalidDigit),
            Some(d) => if acc * radix + d > max {
                Err(IntErrorKind::PosOverflow)
            } else {
                scan_digits(s.skip(i + 1), radix, max, acc * radix + d)
            },
        },
{
    assert(s.skip(i).drop_first() =~= s.skip(i + 1));
}

/// Reads `s` as an unsigned number in `radix` no larger than `max`, exactly
/// as Rust's `from_str_radix` does for unsigned types.
pub fn parse_unsigned(s: &[u8], radix: u32, max: u64) -> (r: Result<u64, IntErrorKind>)
    requires
        2 <= radix <= 36,
    ensures
        match parse_unsigned_spec(s@, radix as nat, max as nat) {
            Ok(v) => r == Ok::<u64, IntErrorKind>(v as u64),
            Err(k) => r == Err::<u64, IntErrorKind>(k),
        },
        parse_unsigned_spec(s@, radix as nat, max as nat) matches Ok(v) ==> v <= max,
{
    proof {
        lemma_parse_bound(s@, radix as nat, max as nat);
    }
    let n = s.len();
    if n == 0 {
        return Err(IntErrorKind::Empty);
    }
    if n == 1 && (s[0] == 0x2b || s[0] == 0x2d) {
        return Err(IntErrorKind::InvalidDigit);
    }
    let mut i: usize = if s[0] == 0x2b { 1 } else { 0 };
    let ghost digits = s@.skip(i as int);
    assert(s@.skip(0) =~= s@);
    assert(s@.skip(1) =~= s@.drop_first());
    assert(parse_unsigned_spec(s@, radix as nat, max as nat) == scan_digits(digits, radix as nat, max as nat, 0));
    let mut acc: u64 = 0;
    while i < n
        invariant
            n == s@.len(),
            i <= n,
            acc <= max,
            2 <= radix <= 36,
            parse_unsigned_spec(s@, radix as nat, max as nat) == scan_digits(digits, radix as nat, max as nat, 0),
            scan_digits(digits, radix as nat, max as nat, 0) == scan_digits(s@.skip(i as int), radix as nat, max as nat, acc as nat),
        decreases n - i,
    {
        proof {
            lemma_scan_step(s@, radix as nat, max as nat, acc as nat, i as int);
        }
        match digit(s[i], radix) {
            None => {
                return Err(IntErrorKind::InvalidDigit);
            },
            Some(d) => {
                if (d as u64) > max {
                    assert(acc * radix + d > max) by (nonlinear_arith)
                        requires d > max, acc >= 0, radix > 0;
                    return Err(IntErrorKind::PosOverflow);
                }
                let limit: u64 = (max - d as u64) / radix as u64;
                if acc > limit {
                    assert(acc * radix + d > max) by (nonlinear_arith)
                        requires acc > limit, limit == (max - d) / radix as int, radix > 0, d <= max;
                    return Err(IntErrorKind::PosOverflow);
                }
                assert(acc * radix + d <= max) by (nonlinear_arith)
                    requires acc <= limit, limit == (max - d) / radix as int, radix > 0, d <= max;
                acc = acc * radix as u64 + d as u64;
                i = i + 1;
            },
        }
    }
    assert(s@.skip(n as int) =~= Seq::<u8>::empty());
    Ok(acc)
}

/// Skips every leading "0x" of `s`.
pub fn strip_hex(s: &[u8]) -> (t: &[u8])
    ensures
        t@ == strip_hex_prefix(s@),
{
    let mut i: usize = 0;
    assert(s@.skip(0) =~= s@);
    while i < s.len() && s.len() - i >= 2 && s[i] == 0x30 && s[i + 1] == 0x78
        invariant
            i <= s@.len(),
            strip_hex_prefix(s@) == strip_hex_prefix(s@.skip(i as int)),
        decreases s@.len() - i,
    {
        assert(s@.skip(i as int).skip(2) =~= s@.skip(i + 2));
        i = i + 2;
    }
    vstd::slice::slice_subrange(s, i, s.len())
}

} // verus!
