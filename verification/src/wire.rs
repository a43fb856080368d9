//! The wire form of identifiers: the little-endian bytes of each number in lower-case hex,
//! with `:` between the two halves of a compound id.
//!
//! This is the string that the serialised protocol carries for every id; encoding and
//! decoding the hex digits is done by the `hex` crate.

use vstd::prelude::*;
use vstd::string::StringSliceAdditionalSpecFns;
use vstd::utf8::{encode_utf8, is_ascii_chars, is_ascii_chars_encode_utf8};
use crate::id::{ProcessId, SpanContext, SpanId, ThreadId};
use crate::protocol::{ExecutionId, ThreadId as BareThreadId};
use crate::text::push_char;

verus! {

/// The lower-case ASCII hex digit for `d < 16`.
pub open spec fn lower_hex_byte(d: nat) -> u8 {
    if d < 10 {
        (48 + d) as u8
    } else {
        (87 + d) as u8
    }
}

/// Lower-case hex encoding: each byte becomes its high then its low digit.
pub open spec fn hex_encode_spec(b: Seq<u8>) -> Seq<u8> {
    Seq::new(
        (2 * b.len()) as nat,
        |i: int|
            if i % 2 == 0 {
                lower_hex_byte((b[i / 2] / 16) as nat)
            } else {
                lower_hex_byte((b[i / 2] % 16) as nat)
            },
    )
}

/// Whether `c` is an ASCII hex digit of either case.
pub open spec fn is_hex_byte(c: u8) -> bool {
    (48 <= c <= 57) || (97 <= c <= 102) || (65 <= c <= 70)
}

/// The value of an ASCII hex digit.
pub open spec fn hex_byte_value(c: u8) -> nat {
    if 48 <= c <= 57 {
        (c - 48) as nat
    } else if 97 <= c <= 102 {
        (c - 87) as nat
    } else if 65 <= c <= 70 {
        (c - 55) as nat
    } else {
        0
    }
}

/// Hex decoding of an even-length digit sequence, two digits per byte.
pub open spec fn hex_decode_spec(d: Seq<u8>) -> Seq<u8> {
    Seq::new(
        d.len() / 2,
        |k: int| (hex_byte_value(d[2 * k]) * 16 + hex_byte_value(d[2 * k + 1])) as u8,
    )
}

/// The index of the first byte that is not a hex digit.
pub open spec fn first_invalid_hex(d: Seq<u8>) -> Option<nat>
    decreases d.len(),
{
    if d.len() == 0 {
        None
    } else if !is_hex_byte(d[0]) {
        Some(0)
    } else {
        match first_invalid_hex(d.drop_first()) {
            Some(i) => Some(i + 1),
            None => None,
        }
    }
}

/// The errors of hex decoding, as `hex::FromHexError` names them.
#[derive(Clone, Copy, Debug, PartialEq, Eq, Structural)]
pub enum HexError {
    /// A byte that is not a hex digit, with its position.
    InvalidHexCharacter { c: char, index: usize },
    /// The digit count is odd.
    OddLength,
    /// The digit count does not match the length of the destination.
    InvalidStringLength,
}

/// What decoding `data` into `n` bytes gives.
pub open spec fn hex_decode_result(data: Seq<u8>, n: nat) -> Result<Seq<u8>, HexError> {
    if data.len() % 2 != 0 {
        Err(HexError::OddLength)
    } else if data.len() / 2 != n {
        Err(HexError::InvalidStringLength)
    } else {
        match first_invalid_hex(data) {
            Some(i) => Err(HexError::InvalidHexCharacter { c: data[i as int] as char, index: i as usize }),
            None => Ok(hex_decode_spec(data)),
        }
    }
}

/// Decodes hex digits into a byte buffer.
///
/// Wraps `hex::decode_to_slice`. Its source checks the digit count first (odd: `OddLength`;
/// not twice the buffer length: `InvalidStringLength`; the buffer is then untouched), then
/// decodes pair by pair, stopping at the first byte that is not a hex digit of either case
/// (`InvalidHexCharacter` with that byte and its index) after having written the pairs before it.
#[verifier::external_body]
fn hex_decode_to_slice(data: &[u8], out: &mut Vec<u8>) -> (r: Result<(), HexError>)
    ensures
        final(out)@.len() == old(out)@.len(),
        match hex_decode_result(data@, old(out)@.len()) {
            Ok(bytes) => r is Ok && final(out)@ == bytes,
            Err(e) => r == Err::<(), HexError>(e) && match e {
                HexError::InvalidHexCharacter { c, index } => final(out)@ == hex_decode_spec(
                    data@,
                ).take((index / 2) as int) + old(out)@.skip((index / 2) as int),
                _ => final(out)@ == old(out)@,
            },
        },
{
    match hex::decode_to_slice(data, out.as_mut_slice()) {
        Ok(()) => Ok(()),
        Err(hex::FromHexError::InvalidHexCharacter { c, index }) => Err(
            HexError::InvalidHexCharacter { c, index },
        ),
        Err(hex::FromHexError::OddLength) => Err(HexError::OddLength),
        Err(hex::FromHexError::InvalidStringLength) => Err(HexError::InvalidStringLength),
    }
}

/// Encodes bytes as lower-case hex digits into a buffer.
///
/// Wraps `hex::encode_to_slice`. Its source fails with `InvalidStringLength` (buffer untouched)
/// unless the buffer is exactly twice as long as the input, and otherwise writes each byte as
/// its high then its low lower-case digit.
#[verifier::external_body]
fn hex_encode_to_slice(input: &[u8], output: &mut Vec<u8>) -> (r: Result<(), HexError>)
    ensures
        if input@.len() * 2 == old(output)@.len() {
            r is Ok && final(output)@ == hex_encode_spec(input@)
        } else {
            r == Err::<(), HexError>(HexError::InvalidStringLength) && final(output)@ == old(output)@
        },
{
    match hex::encode_to_slice(input, output.as_mut_slice()) {
        Ok(()) => Ok(()),
        Err(hex::FromHexError::InvalidHexCharacter { c, index }) => Err(
            HexError::InvalidHexCharacter { c, index },
        ),
        Err(hex::FromHexError::OddLength) => Err(HexError::OddLength),
        Err(hex::FromHexError::InvalidStringLength) => Err(HexError::InvalidStringLength),
    }
}

/// `256^n`.
pub open spec fn pow256(n: nat) -> nat
    decreases n,
{
    if n == 0 {
        1
    } else {
        256 * pow256((n - 1) as nat)
    }
}

/// The `n` lowest bytes of `v`, least significant first.
pub open spec fn le_bytes(v: nat, n: nat) -> Seq<u8>
    decreases n,
{
    if n == 0 {
        Seq::empty()
    } else {
        seq![(v % 256) as u8] + le_bytes(v / 256, (n - 1) as nat)
    }
}

/// The number whose little-endian bytes are `b`.
pub open spec fn le_value(b: Seq<u8>) -> nat
    decreases b.len(),
{
    if b.len() == 0 {
        0
    } else {
        b[0] as nat + 256 * le_value(b.drop_first())
    }
}

/// Bytes read as ASCII characters.
pub open spec fn ascii_chars(b: Seq<u8>) -> Seq<char> {
    b.map_values(|x: u8| x as char)
}

/// The wire digits of the `n` low bytes of `v`.
pub open spec fn wire_hex(v: nat, n: nat) -> Seq<u8> {
    hex_encode_spec(le_bytes(v, n))
}

/// The wire digits of two numbers joined by `:`.
pub open spec fn wire_pair(a: nat, b: nat) -> Seq<u8> {
    wire_hex(a, 16) + seq![58u8] + wire_hex(b, 8)
}

/// Errors of decoding an id from its wire form.
#[derive(Clone, Copy, Debug, PartialEq, Eq, Structural)]
pub enum WireError {
    /// The hex digits did not decode.
    Hex(HexError),
    /// A compound id was not 49 bytes long (the length is given).
    InvalidLength(usize),
    /// A compound id did not have `:` at byte 32.
    MissingSeparator,
    /// A thread id had a zero thread number.
    ZeroThreadId,
}

/// Decoding a single number of `n` bytes.
pub open spec fn decode_number(b: Seq<u8>, n: nat) -> Result<nat, WireError> {
    match hex_decode_result(b, n) {
        Ok(x) => Ok(le_value(x)),
        Err(e) => Err(WireError::Hex(e)),
    }
}

/// Decoding a compound id: 32 digits, `:`, 16 digits.
pub open spec fn decode_pair(b: Seq<u8>) -> Result<(nat, nat), WireError> {
    if b.len() != 49 {
        Err(WireError::InvalidLength(b.len() as usize))
    } else if b[32] != 58 {
        Err(WireError::MissingSeparator)
    } else {
        match decode_number(b.take(32), 16) {
            Err(e) => Err(e),
            Ok(p) => match decode_number(b.skip(33), 8) {
                Err(e) => Err(e),
                Ok(t) => Ok((p, t)),
            },
        }
    }
}

/// Decoding a thread id: a compound id whose second number is not zero.
pub open spec fn decode_thread_id(b: Seq<u8>) -> Result<(nat, nat), WireError> {
    match decode_pair(b) {
        Ok((p, t)) => if t == 0 {
            Err(WireError::ZeroThreadId)
        } else {
            Ok((p, t))
        },
        Err(e) => Err(e),
    }
}

fn le_bytes_exec(v: u128, n: usize) -> (r: Vec<u8>)
    ensures
        r@ == le_bytes(v as nat, n as nat),
{
    let mut bytes: Vec<u8> = Vec::new();
    let mut cur = v;
    let mut i: usize = 0;
    assert(bytes@ + le_bytes(cur as nat, n as nat) =~= le_bytes(v as nat, n as nat));
    while i < n
        invariant
            i <= n,
            bytes@ + le_bytes(cur as nat, (n - i) as nat) == le_bytes(v as nat, n as nat),
        decreases n - i,
    {
        let b = (cur % 256) as u8;
        proof {
            let rest = le_bytes((cur / 256) as nat, (n - i - 1) as nat);
            assert(le_bytes(cur as nat, (n - i) as nat) == seq![b] + rest);
            assert(bytes@.push(b) + rest =~= bytes@ + (seq![b] + rest));
        }
        bytes.push(b);
        cur = cur / 256;
        i = i + 1;
    }
    assert(bytes@ + le_bytes(cur as nat, 0) =~= bytes@);
    bytes
}

proof fn lemma_le_bytes_len(v: nat, n: nat)
    ensures
        le_bytes(v, n).len() == n,
    decreases n,
{
    if n > 0 {
        lemma_le_bytes_len(v / 256, (n - 1) as nat);
    }
}

proof fn lemma_le_value_bound(b: Seq<u8>)
    ensures
        le_value(b) < pow256(b.len()),
    decreases b.len(),
{
    if b.len() > 0 {
        lemma_le_value_bound(b.drop_first());
    }
}

fn le_value_exec(b: &Vec<u8>) -> (r: u128)
    requires
        b.len() <= 16,
    ensures
        r as nat == le_value(b@),
{
    proof {
        lemma_le_value_bound(b@);
        lemma_pow256_mono(b.len() as nat, 16);
        lemma_pow256_values();
    }
    let mut acc: u128 = 0;
    let mut i = b.len();
    assert(b@.skip(i as int) =~= Seq::<u8>::empty());
    while i > 0
        invariant
            i <= b.len() <= 16,
            acc as nat == le_value(b@.skip(i as int)),
        decreases i,
    {
        i = i - 1;
        proof {
            let s = b@.skip(i as int);
            assert(s.drop_first() =~= b@.skip(i + 1));
            assert(s[0] == b@[i as int]);
            assert(le_value(s) == b@[i as int] as nat + 256 * acc);
            lemma_le_value_bound(s);
            lemma_pow256_mono(s.len(), 16);
            lemma_pow256_values();
            assert(acc * 256 + b@[i as int] < 0x1_0000_0000_0000_0000_0000_0000_0000_0000);
        }
        acc = acc * 256 + b[i] as u128;
    }
    assert(b@.skip(0) =~= b@);
    acc
}

proof fn lemma_pow256_mono(a: nat, b: nat)
    requires
        a <= b,
    ensures
        pow256(a) <= pow256(b),
    decreases b,
{
    if a < b {
        lemma_pow256_mono(a, (b - 1) as nat);
    }
}

/// `256^8` and `256^16` as literals.
pub proof fn lemma_pow256_values()
    ensures
        pow256(8) == 0x1_0000_0000_0000_0000,
        pow256(16) == 0x1_0000_0000_0000_0000_0000_0000_0000_0000,
{
    reveal_with_fuel(pow256, 17);
}

/// Appends the wire digits of the `n` low bytes of `v`.
fn push_wire_hex(out: &mut String, v: u128, n: usize)
    requires
        n <= 16,
    ensures
        final(out)@ == old(out)@ + ascii_chars(wire_hex(v as nat, n as nat)),
{
    let bytes = le_bytes_exec(v, n);
    proof {
        lemma_le_bytes_len(v as nat, n as nat);
    }
    let mut buf: Vec<u8> = vec![0u8; n * 2];
    let r = hex_encode_to_slice(bytes.as_slice(), &mut buf);
    let ghost digits = wire_hex(v as nat, n as nat);
    assert(buf@ == digits);
    let mut i: usize = 0;
    while i < buf.len()
        invariant
            i <= buf.len(),
            buf@ == digits,
            out@ == old(out)@ + ascii_chars(digits.take(i as int)),
        decreases buf.len() - i,
    {
        proof {
            assert(ascii_chars(digits.take(i + 1)) =~= ascii_chars(digits.take(i as int)).push(
                buf@[i as int] as char,
            ));
        }
        push_char(out, buf[i] as char);
        i = i + 1;
    }
    assert(digits.take(buf.len() as int) =~= digits);
}

/// Decodes the wire digits of an `n`-byte number.
fn decode_wire_number(data: &[u8], n: usize) -> (r: Result<u128, WireError>)
    requires
        n <= 16,
    ensures
        match decode_number(data@, n as nat) {
            Ok(v) => r == Ok::<u128, WireError>(v as u128) && v == r->Ok_0 as nat,
            Err(e) => r == Err::<u128, WireError>(e),
        },
{
    let mut out: Vec<u8> = vec![0u8; n];
    match hex_decode_to_slice(data, &mut out) {
        Ok(()) => Ok(le_value_exec(&out)),
        Err(e) => Err(WireError::Hex(e)),
    }
}

/// Decodes a compound id (`process:number`) from its wire bytes.
fn decode_wire_pair(data: &[u8]) -> (r: Result<(u128, u64), WireError>)
    ensures
        match decode_pair(data@) {
            Ok((p, t)) => r matches Ok((rp, rt)) && rp as nat == p && rt as nat == t,
            Err(e) => r == Err::<(u128, u64), WireError>(e),
        },
{
    if data.len() != 49 {
        return Err(WireError::InvalidLength(data.len()));
    }
    if data[32] != 58u8 {
        return Err(WireError::MissingSeparator);
    }
    let head = &data[0..32];
    let tail = &data[33..49];
    assert(head@ =~= data@.take(32));
    assert(tail@ =~= data@.skip(33));
    let p = decode_wire_number(head, 16)?;
    let t = decode_wire_number(tail, 8)?;
    proof {
        lemma_decoded_bound(tail@, 8);
        lemma_pow256_values();
    }
    Ok((p, t as u64))
}

/// A successfully decoded `n`-byte number is below `256^n`.
proof fn lemma_decoded_bound(b: Seq<u8>, n: nat)
    ensures
        decode_number(b, n) matches Ok(v) ==> v < pow256(n),
{
    if let Ok(x) = hex_decode_result(b, n) {
        lemma_le_value_bound(x);
    }
}

impl ProcessId {
    /// The wire form: the 16 little-endian bytes in lower-case hex.
    pub fn to_wire(&self) -> (r: String)
        ensures
            r@ == ascii_chars(wire_hex(self@ as nat, 16)),
    {
        let mut out = String::new();
        push_wire_hex(&mut out, self.to_raw(), 16);
        out
    }

    /// Reads a process id from its wire form (hex of either case, 32 digits).
    pub fn from_wire(s: &str) -> (r: Result<Self, WireError>)
        ensures
            match decode_number(s.spec_bytes(), 16) {
                Ok(v) => r matches Ok(p) && p@ as nat == v,
                Err(e) => r == Err::<Self, WireError>(e),
            },
    {
        let v = decode_wire_number(s.as_bytes(), 16)?;
        Ok(ProcessId::from_raw(v))
    }
}

impl SpanId {
    /// The wire form: the 8 little-endian bytes in lower-case hex.
    pub fn to_wire(&self) -> (r: String)
        ensures
            r@ == ascii_chars(wire_hex(self.0 as nat, 8)),
    {
        let mut out = String::new();
        push_wire_hex(&mut out, self.0 as u128, 8);
        out
    }

    /// Reads a span id from its wire form (hex of either case, 16 digits).
    pub fn from_wire(s: &str) -> (r: Result<Self, WireError>)
        ensures
            match decode_number(s.spec_bytes(), 8) {
                Ok(v) => r matches Ok(id) && id.0 as nat == v,
                Err(e) => r == Err::<Self, WireError>(e),
            },
    {
        let v = decode_wire_number(s.as_bytes(), 8)?;
        proof {
            lemma_decoded_bound(s.spec_bytes(), 8);
            lemma_pow256_values();
        }
        Ok(SpanId(v as u64))
    }
}

impl BareThreadId {
    /// The wire form: the 8 little-endian bytes in lower-case hex.
    pub fn to_wire(&self) -> (r: String)
        ensures
            r@ == ascii_chars(wire_hex(self.0 as nat, 8)),
    {
        let mut out = String::new();
        push_wire_hex(&mut out, self.0 as u128, 8);
        out
    }

    /// Reads a bare thread id from its wire form (hex of either case, 16 digits).
    pub fn from_wire(s: &str) -> (r: Result<Self, WireError>)
        ensures
            match decode_number(s.spec_bytes(), 8) {
                Ok(v) => r matches Ok(t) && t.0 as nat == v,
                Err(e) => r == Err::<Self, WireError>(e),
            },
    {
        let v = decode_wire_number(s.as_bytes(), 8)?;
        proof {
            lemma_decoded_bound(s.spec_bytes(), 8);
            lemma_pow256_values();
        }
        Ok(BareThreadId(v as u64))
    }
}

impl ThreadId {
    /// The wire form: process and thread little-endian bytes in hex, joined by `:`.
    pub fn to_wire(&self) -> (r: String)
        ensures
            r@ == ascii_chars(wire_pair(self@.0 as nat, self@.1 as nat)),
    {
        let mut out = String::new();
        push_wire_hex(&mut out, self.process().to_raw(), 16);
        push_char(&mut out, ':');
        push_wire_hex(&mut out, self.raw() as u128, 8);
        proof {
            assert(ascii_chars(wire_pair(self@.0 as nat, self@.1 as nat)) =~= ascii_chars(
                wire_hex(self@.0 as nat, 16),
            ) + seq![':'] + ascii_chars(wire_hex(self@.1 as nat, 8)));
        }
        out
    }

    /// Reads a thread id from its wire form: 49 bytes, `:` at byte 32, non-zero thread.
    pub fn from_wire(s: &str) -> (r: Result<Self, WireError>)
        ensures
            match decode_thread_id(s.spec_bytes()) {
                Ok((p, t)) => r matches Ok(id) && id@.0 as nat == p && id@.1 as nat == t,
                Err(e) => r == Err::<Self, WireError>(e),
            },
    {
        let (p, t) = decode_wire_pair(s.as_bytes())?;
        if t == 0 {
            return Err(WireError::ZeroThreadId);
        }
        Ok(ThreadId::from_raw(ProcessId::from_raw(p), t))
    }
}

impl SpanContext {
    /// The wire form: process and span little-endian bytes in hex, joined by `:`.
    pub fn to_wire(&self) -> (r: String)
        ensures
            r@ == ascii_chars(wire_pair(self.process_id@ as nat, self.span_id.0 as nat)),
    {
        let mut out = String::new();
        push_wire_hex(&mut out, self.process_id.to_raw(), 16);
        push_char(&mut out, ':');
        push_wire_hex(&mut out, self.span_id.0 as u128, 8);
        proof {
            assert(ascii_chars(wire_pair(self.process_id@ as nat, self.span_id.0 as nat))
                =~= ascii_chars(wire_hex(self.process_id@ as nat, 16)) + seq![':'] + ascii_chars(
                wire_hex(self.span_id.0 as nat, 8),
            ));
        }
        out
    }

    /// Reads a span context from its wire form: 49 bytes with `:` at byte 32.
    pub fn from_wire(s: &str) -> (r: Result<Self, WireError>)
        ensures
            match decode_pair(s.spec_bytes()) {
                Ok((p, t)) => r matches Ok(c) && c.process_id@ as nat == p && c.span_id.0 as nat == t,
                Err(e) => r == Err::<Self, WireError>(e),
            },
    {
        let (p, t) = decode_wire_pair(s.as_bytes())?;
        Ok(SpanContext::new(ProcessId::from_raw(p), SpanId(t)))
    }
}

impl ExecutionId {
    /// The wire form: process and thread little-endian bytes in hex, joined by `:`.
    pub fn to_wire(&self) -> (r: String)
        ensures
            r@ == ascii_chars(wire_pair(self.process@ as nat, self.thread.0 as nat)),
    {
        let mut out = String::new();
        push_wire_hex(&mut out, self.process.to_raw(), 16);
        push_char(&mut out, ':');
        push_wire_hex(&mut out, self.thread.0 as u128, 8);
        proof {
            assert(ascii_chars(wire_pair(self.process@ as nat, self.thread.0 as nat))
                =~= ascii_chars(wire_hex(self.process@ as nat, 16)) + seq![':'] + ascii_chars(
                wire_hex(self.thread.0 as nat, 8),
            ));
        }
        out
    }

    /// Reads an execution id from its wire form: 49 bytes with `:` at byte 32.
    pub fn from_wire(s: &str) -> (r: Result<Self, WireError>)
        ensures
            match decode_pair(s.spec_bytes()) {
                Ok((p, t)) => r matches Ok(e) && e.process@ as nat == p && e.thread.0 as nat == t,
                Err(e) => r == Err::<Self, WireError>(e),
            },
    {
        let (p, t) = decode_wire_pair(s.as_bytes())?;
        Ok(ExecutionId { process: ProcessId::from_raw(p), thread: BareThreadId(t) })
    }
}

proof fn lemma_all_hex_no_invalid(d: Seq<u8>)
    requires
        forall|i: int| 0 <= i < d.len() ==> is_hex_byte(#[trigger] d[i]),
    ensures
        first_invalid_hex(d) is None,
    decreases d.len(),
{
    if d.len() > 0 {
        assert(is_hex_byte(d[0]));
        assert forall|i: int| 0 <= i < d.drop_first().len() implies is_hex_byte(
            #[trigger] d.drop_first()[i],
        ) by {
            assert(d.drop_first()[i] == d[i + 1]);
        }
        lemma_all_hex_no_invalid(d.drop_first());
    }
}

/// Decoding lower-case hex digits gives back the encoded bytes.
pub proof fn lemma_hex_roundtrip(b: Seq<u8>)
    ensures
        hex_decode_result(hex_encode_spec(b), b.len()) == Ok::<Seq<u8>, HexError>(b),
{
    let e = hex_encode_spec(b);
    assert forall|i: int| 0 <= i < e.len() implies is_hex_byte(#[trigger] e[i]) by {
        let x = b[i / 2];
        assert(x / 16 < 16);
        assert(x % 16 < 16);
    }
    lemma_all_hex_no_invalid(e);
    assert forall|k: int| 0 <= k < b.len() implies #[trigger] hex_decode_spec(e)[k] == b[k] by {
        let x = b[k];
        assert(e[2 * k] == lower_hex_byte((x / 16) as nat));
        assert(e[2 * k + 1] == lower_hex_byte((x % 16) as nat));
        assert(hex_byte_value(lower_hex_byte((x / 16) as nat)) == x / 16);
        assert(hex_byte_value(lower_hex_byte((x % 16) as nat)) == x % 16);
    }
    assert(hex_decode_spec(e) =~= b);
}

/// Reading back the little-endian bytes of a value that fits gives the value.
pub proof fn lemma_le_roundtrip(v: nat, n: nat)
    requires
        v < pow256(n),
    ensures
        le_value(le_bytes(v, n)) == v,
        le_bytes(v, n).len() == n,
    decreases n,
{
    lemma_le_bytes_len(v, n);
    if n > 0 {
        lemma_le_roundtrip(v / 256, (n - 1) as nat);
        let b = le_bytes(v, n);
        assert(b.drop_first() =~= le_bytes(v / 256, (n - 1) as nat));
    }
}

/// The wire digits of a value that fits decode back to it.
pub proof fn lemma_wire_number_roundtrip(v: nat, n: nat)
    requires
        v < pow256(n),
    ensures
        decode_number(wire_hex(v, n), n) == Ok::<nat, WireError>(v),
{
    lemma_le_roundtrip(v, n);
    lemma_hex_roundtrip(le_bytes(v, n));
}

proof fn lemma_wire_hex_ascii(v: nat, n: nat)
    ensures
        wire_hex(v, n).len() == 2 * n,
        forall|i: int| 0 <= i < wire_hex(v, n).len() ==> #[trigger] wire_hex(v, n)[i] < 128,
{
    lemma_le_bytes_len(v, n);
    let b = le_bytes(v, n);
    assert forall|i: int| 0 <= i < wire_hex(v, n).len() implies #[trigger] wire_hex(v, n)[i] < 128 by {
        let x = b[i / 2];
        assert(x / 16 < 16);
        assert(x % 16 < 16);
    }
}

/// The UTF-8 bytes of ASCII text read as characters give the bytes back.
proof fn lemma_ascii_bytes(b: Seq<u8>)
    requires
        forall|i: int| 0 <= i < b.len() ==> #[trigger] b[i] < 128,
    ensures
        encode_utf8(ascii_chars(b)) == b,
{
    let c = ascii_chars(b);
    assert(is_ascii_chars(c)) by {
        assert forall|i| 0 <= i < c.len() implies '\0' <= #[trigger] c[i] <= '\u{7f}' by {
            assert(c[i] == b[i] as char);
        }
    }
    is_ascii_chars_encode_utf8(c);
    assert(encode_utf8(c) =~= b);
}

/// The wire text of a process id reads back as that id.
pub proof fn lemma_process_id_wire_roundtrip(p: ProcessId)
    ensures
        decode_number(encode_utf8(ascii_chars(wire_hex(p@ as nat, 16))), 16) == Ok::<nat, WireError>(
            p@ as nat,
        ),
{
    lemma_wire_hex_ascii(p@ as nat, 16);
    lemma_ascii_bytes(wire_hex(p@ as nat, 16));
    lemma_pow256_values();
    lemma_wire_number_roundtrip(p@ as nat, 16);
}

/// The wire text of a span id reads back as that id.
pub proof fn lemma_span_id_wire_roundtrip(s: SpanId)
    ensures
        decode_number(encode_utf8(ascii_chars(wire_hex(s.0 as nat, 8))), 8) == Ok::<nat, WireError>(
            s.0 as nat,
        ),
{
    lemma_wire_hex_ascii(s.0 as nat, 8);
    lemma_ascii_bytes(wire_hex(s.0 as nat, 8));
    lemma_pow256_values();
    lemma_wire_number_roundtrip(s.0 as nat, 8);
}

/// The wire digits of a pair of numbers that fit decode back to the pair.
pub proof fn lemma_wire_pair_roundtrip(a: nat, b: nat)
    requires
        a < pow256(16),
        b < pow256(8),
    ensures
        decode_pair(encode_utf8(ascii_chars(wire_pair(a, b)))) == Ok::<(nat, nat), WireError>((a, b)),
{
    let w = wire_pair(a, b);
    lemma_wire_hex_ascii(a, 16);
    lemma_wire_hex_ascii(b, 8);
    assert forall|i: int| 0 <= i < w.len() implies #[trigger] w[i] < 128 by {
        if i < 32 {
            assert(w[i] == wire_hex(a, 16)[i]);
        } else if i > 32 {
            assert(w[i] == wire_hex(b, 8)[i - 33]);
        }
    }
    lemma_ascii_bytes(w);
    assert(w.take(32) =~= wire_hex(a, 16));
    assert(w.skip(33) =~= wire_hex(b, 8));
    lemma_wire_number_roundtrip(a, 16);
    lemma_wire_number_roundtrip(b, 8);
}

/// The wire text of a thread id reads back as that id.
pub proof fn lemma_thread_id_wire_roundtrip(t: ThreadId)
    requires
        t@.1 != 0,
    ensures
        decode_thread_id(encode_utf8(ascii_chars(wire_pair(t@.0 as nat, t@.1 as nat))))
            == Ok::<(nat, nat), WireError>((t@.0 as nat, t@.1 as nat)),
{
    lemma_pow256_values();
    lemma_wire_pair_roundtrip(t@.0 as nat, t@.1 as nat);
}

/// The wire text of a span context reads back as that context.
pub proof fn lemma_span_context_wire_roundtrip(c: SpanContext)
    ensures
        decode_pair(encode_utf8(ascii_chars(wire_pair(c.process_id@ as nat, c.span_id.0 as nat))))
            == Ok::<(nat, nat), WireError>((c.process_id@ as nat, c.span_id.0 as nat)),
{
    lemma_pow256_values();
    lemma_wire_pair_roundtrip(c.process_id@ as nat, c.span_id.0 as nat);
}

/// The wire text of an execution id reads back as that id.
pub proof fn lemma_execution_id_wire_roundtrip(e: ExecutionId)
    ensures
        decode_pair(encode_utf8(ascii_chars(wire_pair(e.process@ as nat, e.thread.0 as nat))))
            == Ok::<(nat, nat), WireError>((e.process@ as nat, e.thread.0 as nat)),
{
    lemma_pow256_values();
    lemma_wire_pair_roundtrip(e.process@ as nat, e.thread.0 as nat);
}

} // verus!
