//! Hexadecimal text: lower-case fixed-width formatting and radix-16 integer parsing.
//!
//! Formatting follows `{:0Nx}` for values that fit in `N` digits; parsing follows the rules of
//! `from_str_radix(_, 16)` for unsigned integers: an optional leading `+`, then one or more digits
//! of either case, with the first offending position deciding between an invalid digit and an
//! overflow.

use vstd::prelude::*;
use crate::text::push_char;

verus! {

/// Whether `c` is a hexadecimal digit of either case.
pub open spec fn is_hex_digit(c: char) -> bool {
    let u = c as u32;
    (48 <= u <= 57) || (97 <= u <= 102) || (65 <= u <= 70)
}

/// The value of a hexadecimal digit (0 for anything else).
pub open spec fn hex_digit_value(c: char) -> nat {
    let u = c as u32;
    if 48 <= u <= 57 {
        (u - 48) as nat
    } else if 97 <= u <= 102 {
        (u - 87) as nat
    } else if 65 <= u <= 70 {
        (u - 55) as nat
    } else {
        0
    }
}

/// The lower-case hexadecimal digit for `d < 16`.
pub open spec fn lower_hex_char(d: nat) -> char {
    if d < 10 {
        (48 + d) as char
    } else {
        (87 + d) as char
    }
}

/// `16^n`.
pub open spec fn pow16(n: nat) -> nat
    decreases n,
{
    if n == 0 {
        1
    } else {
        16 * pow16((n - 1) as nat)
    }
}

/// The `n` lowest hexadecimal digits of `v`, most significant first, in lower case.
pub open spec fn fixed_hex(v: nat, n: nat) -> Seq<char>
    decreases n,
{
    if n == 0 {
        Seq::empty()
    } else {
        fixed_hex(v / 16, (n - 1) as nat).push(lower_hex_char(v % 16))
    }
}

/// The reasons radix-16 parsing can fail, named as `core::num::IntErrorKind` names them.
#[derive(Clone, Copy, Debug, PartialEq, Eq, Structural)]
pub enum IntErrorKind {
    /// The input was empty.
    Empty,
    /// A character was not a digit (a lone sign counts as one).
    InvalidDigit,
    /// The value does not fit in the target type.
    PosOverflow,
}

/// The error of parsing an integer from hexadecimal text.
#[derive(Clone, Copy, Debug, PartialEq, Eq, Structural)]
pub struct ParseIntError {
    pub kind: IntErrorKind,
}

impl ParseIntError {
    /// The detailed cause of the failure.
    pub fn kind(&self) -> (k: IntErrorKind)
        ensures
            k == self.kind,
    {
        self.kind
    }
}

/// Parses a digit string (no sign), scanning left to right: at each position an invalid
/// character is reported before an overflow.
pub open spec fn parse_digits(d: Seq<char>, max: nat) -> Result<nat, IntErrorKind>
    decreases d.len(),
{
    if d.len() == 0 {
        Ok(0)
    } else {
        match parse_digits(d.drop_last(), max) {
            Err(e) => Err(e),
            Ok(v) => if !is_hex_digit(d.last()) {
                Err(IntErrorKind::InvalidDigit)
            } else if v * 16 + hex_digit_value(d.last()) > max {
                Err(IntErrorKind::PosOverflow)
            } else {
                Ok(v * 16 + hex_digit_value(d.last()))
            },
        }
    }
}

/// Radix-16 parsing of an unsigned integer whose largest value is `max`.
pub open spec fn parse_hex_spec(s: Seq<char>, max: nat) -> Result<nat, IntErrorKind> {
    if s.len() == 0 {
        Err(IntErrorKind::Empty)
    } else if s.len() == 1 && (s[0] == '+' || s[0] == '-') {
        Err(IntErrorKind::InvalidDigit)
    } else if s[0] == '+' {
        parse_digits(s.drop_first(), max)
    } else {
        parse_digits(s, max)
    }
}

/// Relates a parse result to the specification.
pub open spec fn parse_matches(r: Result<u128, ParseIntError>, spec: Result<nat, IntErrorKind>) -> bool {
    match r {
        Ok(v) => spec == Ok::<nat, IntErrorKind>(v as nat),
        Err(e) => spec == Err::<nat, IntErrorKind>(e.kind),
    }
}

fn lower_hex_char_exec(d: u8) -> (c: char)
    requires
        d < 16,
    ensures
        c == lower_hex_char(d as nat),
{
    if d < 10 {
        (48u8 + d) as char
    } else {
        (87u8 + d) as char
    }
}

fn hex_digit_value_exec(c: char) -> (r: Option<u8>)
    ensures
        r is Some <==> is_hex_digit(c),
        r matches Some(v) ==> v as nat == hex_digit_value(c) && v < 16,
{
    let u = c as u32;
    if 48 <= u && u <= 57 {
        Some((u - 48) as u8)
    } else if 97 <= u && u <= 102 {
        Some((u - 87) as u8)
    } else if 65 <= u && u <= 70 {
        Some((u - 55) as u8)
    } else {
        None
    }
}

/// Appends the `width` lowest lower-case hexadecimal digits of `v` (zero padded).
pub fn push_hex_fixed(out: &mut String, v: u128, width: usize)
    ensures
        final(out)@ == old(out)@ + fixed_hex(v as nat, width as nat),
    decreases width,
{
    if width > 0 {
        push_hex_fixed(out, v / 16, width - 1);
        let c = lower_hex_char_exec((v % 16) as u8);
        push_char(out, c);
        assert(final(out)@ == old(out)@ + fixed_hex(v as nat, width as nat)) by {
            assert(fixed_hex(v as nat, width as nat) == fixed_hex((v / 16) as nat, (width - 1) as nat).push(c));
        }
    }
}

/// Parses `s[start..end]` as a radix-16 unsigned integer no larger than `max`.
pub fn parse_hex(s: &Vec<char>, start: usize, end: usize, max: u128) -> (r: Result<u128, ParseIntError>)
    requires
        start <= end <= s.len(),
    ensures
        parse_matches(r, parse_hex_spec(s@.subrange(start as int, end as int), max as nat)),
        r matches Ok(v) ==> v <= max,
{
    let ghost sub = s@.subrange(start as int, end as int);
    if start == end {
        return Err(ParseIntError { kind: IntErrorKind::Empty });
    }
    if end - start == 1 && (s[start] == '+' || s[start] == '-') {
        return Err(ParseIntError { kind: IntErrorKind::InvalidDigit });
    }
    let first = if s[start] == '+' { start + 1 } else { start };
    let ghost ds = s@.subrange(first as int, end as int);
    assert(s[start as int] == '+' ==> ds =~= sub.drop_first());
    assert(s[start as int] != '+' ==> ds =~= sub);
    assert(parse_hex_spec(sub, max as nat) == parse_digits(ds, max as nat));
    let mut acc: u128 = 0;
    let mut i = first;
    assert(ds.subrange(0, 0) =~= Seq::<char>::empty());
    while i < end
        invariant
            first <= i <= end <= s.len(),
            ds == s@.subrange(first as int, end as int),
            parse_hex_spec(s@.subrange(start as int, end as int), max as nat) == parse_digits(ds, max as nat),
            parse_digits(ds.subrange(0, i - first), max as nat) == Ok::<nat, IntErrorKind>(acc as nat),
            acc <= max,
        decreases end - i,
    {
        let ghost pre = ds.subrange(0, i - first);
        let ghost next = ds.subrange(0, i + 1 - first);
        assert(next.drop_last() =~= pre);
        assert(next.last() == s[i as int]);
        let c = s[i];
        match hex_digit_value_exec(c) {
            None => {
                proof {
                    lemma_parse_digits_error_sticks(ds, (i + 1 - first) as nat, max as nat);
                }
                return Err(ParseIntError { kind: IntErrorKind::InvalidDigit });
            },
            Some(d) => {
                if acc > max / 16 {
                    proof {
                        lemma_parse_digits_error_sticks(ds, (i + 1 - first) as nat, max as nat);
                    }
                    return Err(ParseIntError { kind: IntErrorKind::PosOverflow });
                }
                let m = acc * 16;
                if d as u128 > max - m {
                    proof {
                        lemma_parse_digits_error_sticks(ds, (i + 1 - first) as nat, max as nat);
                    }
                    return Err(ParseIntError { kind: IntErrorKind::PosOverflow });
                }
                acc = m + d as u128;
            },
        }
        i = i + 1;
    }
    assert(ds.subrange(0, end - first) =~= ds);
    Ok(acc)
}

/// Once a prefix fails to parse, every longer prefix fails the same way.
proof fn lemma_parse_digits_error_sticks(ds: Seq<char>, k: nat, max: nat)
    requires
        k <= ds.len(),
        parse_digits(ds.subrange(0, k as int), max) is Err,
    ensures
        parse_digits(ds, max) == parse_digits(ds.subrange(0, k as int), max),
    decreases ds.len() - k,
{
    if k < ds.len() {
        let next = ds.subrange(0, (k + 1) as int);
        assert(next.drop_last() =~= ds.subrange(0, k as int));
        lemma_parse_digits_error_sticks(ds, k + 1, max);
    } else {
        assert(ds.subrange(0, k as int) =~= ds);
    }
}

/// The digits of a fixed-width rendering are all hexadecimal digits, and none is a sign
/// or a separator.
pub proof fn lemma_fixed_hex_digits(v: nat, n: nat)
    ensures
        fixed_hex(v, n).len() == n,
        forall|i: int| 0 <= i < n ==> #[trigger] is_hex_digit(fixed_hex(v, n)[i]),
        forall|i: int| 0 <= i < n ==> fixed_hex(v, n)[i] != ':' && fixed_hex(v, n)[i] != '+'
            && fixed_hex(v, n)[i] != '-',
    decreases n,
{
    if n > 0 {
        lemma_fixed_hex_digits(v / 16, (n - 1) as nat);
        let d = v % 16;
        assert(is_hex_digit(lower_hex_char(d)));
    }
}

/// Parsing the fixed-width rendering of a value that fits in `n` digits and in the target
/// type gives the value back.
pub proof fn lemma_parse_fixed_hex(v: nat, n: nat, max: nat)
    requires
        v < pow16(n),
        v <= max,
    ensures
        parse_digits(fixed_hex(v, n), max) == Ok::<nat, IntErrorKind>(v),
    decreases n,
{
    if n > 0 {
        let q = v / 16;
        assert(q < pow16((n - 1) as nat));
        assert(q <= max);
        lemma_parse_fixed_hex(q, (n - 1) as nat, max);
        let s = fixed_hex(v, n);
        assert(s.drop_last() =~= fixed_hex(q, (n - 1) as nat));
        let d = v % 16;
        assert(hex_digit_value(lower_hex_char(d)) == d);
        assert(q * 16 + d == v);
    }
}

/// A fixed-width rendering parses back to its value through the full radix-16 parser.
pub proof fn lemma_parse_hex_fixed(v: nat, n: nat, max: nat)
    requires
        v < pow16(n),
        v <= max,
        n > 0,
    ensures
        parse_hex_spec(fixed_hex(v, n), max) == Ok::<nat, IntErrorKind>(v),
{
    lemma_fixed_hex_digits(v, n);
    lemma_parse_fixed_hex(v, n, max);
    assert(fixed_hex(v, n)[0] != '+');
    assert(fixed_hex(v, n)[0] != '-');
}

/// `16^16` and `16^32` as literals.
pub proof fn lemma_pow16_values()
    ensures
        pow16(16) == 0x1_0000_0000_0000_0000,
        pow16(32) == 0x1_0000_0000_0000_0000_0000_0000_0000_0000,
{
    reveal_with_fuel(pow16, 33);
}

} // verus!
