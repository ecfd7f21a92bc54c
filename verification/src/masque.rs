//! Wire codec for CONNECT-UDP datagrams: the transport's variable-length
//! integer and the `varint(context_id) || payload` frame built on it.

use vstd::prelude::*;

verus! {

/// Largest value a variable-length integer can carry: `2^62 - 1`.
pub const VARINT_MAX: u64 = 4_611_686_018_427_387_903;

/// CONNECT-UDP uses context id 0 for UDP payload datagrams.
pub const CONNECT_UDP_CONTEXT_ID: u64 = 0;

#[derive(Debug, Clone, PartialEq, Eq)]
pub enum DecodeError {
    Truncated,
    Invalid,
}

#[derive(Debug, Clone, PartialEq, Eq)]
pub enum EncodeError {
    OutOfRange,
}

/// Number of bytes in the shortest encoding of `value`; 0 when `value` does
/// not fit in 62 bits.
pub open spec fn varint_size(value: u64) -> nat {
    if value <= 63 {
        1
    } else if value <= 16_383 {
        2
    } else if value <= 1_073_741_823 {
        4
    } else if value <= VARINT_MAX {
        8
    } else {
        0
    }
}

/// The `n` low-order base-256 digits of `value`, most significant first.
pub open spec fn be_digits(value: nat, n: nat) -> Seq<u8>
    decreases n,
{
    if n == 0 {
        Seq::empty()
    } else {
        be_digits(value / 256, (n - 1) as nat).push((value % 256) as u8)
    }
}

/// The number whose base-256 digits, most significant first, are `bytes`.
pub open spec fn be_value(bytes: Seq<u8>) -> nat
    decreases bytes.len(),
{
    if bytes.len() == 0 {
        0
    } else {
        be_value(bytes.drop_last()) * 256 + bytes.last() as nat
    }
}

/// `256^n`.
pub open spec fn pow256(n: nat) -> nat
    decreases n,
{
    if n == 0 {
        1
    } else {
        256 * pow256((n - 1) as nat)
    }
}

/// The tag of the length class of `size` bytes, placed at the two top bits of
/// a `size`-byte big-endian number.
pub open spec fn varint_marker(size: nat) -> nat {
    if size == 1 {
        0
    } else if size == 2 {
        0x4000
    } else if size == 4 {
        0x8000_0000
    } else {
        0xc000_0000_0000_0000
    }
}

/// Number of values that an encoding of `size` bytes can carry: `2^(8*size - 2)`.
pub open spec fn varint_capacity(size: nat) -> nat {
    if size == 1 {
        0x40
    } else if size == 2 {
        0x4000
    } else if size == 4 {
        0x4000_0000
    } else {
        0x4000_0000_0000_0000
    }
}

/// Length that a first byte announces for the whole encoding.
pub open spec fn varint_announced_len(first: u8) -> nat {
    if first < 0x40 {
        1
    } else if first < 0x80 {
        2
    } else if first < 0xc0 {
        4
    } else {
        8
    }
}

/// The wire form of `value`: the big-endian bytes, in the shortest length
/// class, of the value with the class's tag set in the two top bits.
/// Empty when `value` is out of range.
pub open spec fn varint_bytes(value: u64) -> Seq<u8> {
    let size = varint_size(value);
    if size == 0 {
        Seq::empty()
    } else {
        be_digits(value as nat + varint_marker(size), size)
    }
}

/// What decoding makes of `input`: the value carried by the leading integer,
/// tag bits masked out, and the number of bytes it occupies.
pub open spec fn varint_decoded(input: Seq<u8>) -> Result<(u64, nat), DecodeError> {
    if input.len() == 0 {
        Err(DecodeError::Truncated)
    } else {
        let len = varint_announced_len(input[0]);
        if input.len() < len {
            Err(DecodeError::Truncated)
        } else {
            let raw = be_value(input.subrange(0, len as int));
            Ok(((raw % varint_capacity(len)) as u64, len))
        }
    }
}

/// Length in bytes of the encoding of `value`, 0 when it is out of range.
pub fn varint_len(value: u64) -> (len: usize)
    ensures
        len == varint_size(value),
{
    if value <= 63 {
        1
    } else if value <= 16_383 {
        2
    } else if value <= 1_073_741_823 {
        4
    } else if value <= VARINT_MAX {
        8
    } else {
        0
    }
}

/// `be_digits` yields exactly `n` bytes.
proof fn lemma_be_digits_len(value: nat, n: nat)
    ensures
        be_digits(value, n).len() == n,
    decreases n,
{
    if n > 0 {
        lemma_be_digits_len(value / 256, (n - 1) as nat);
    }
}

/// Reading back the `n` digits of a number below `256^n` gives the number.
proof fn lemma_be_value_of_digits(value: nat, n: nat)
    requires
        value < pow256(n),
    ensures
        be_value(be_digits(value, n)) == value,
    decreases n,
{
    if n > 0 {
        let head = be_digits(value / 256, (n - 1) as nat);
        lemma_be_value_of_digits(value / 256, (n - 1) as nat);
        assert(head.push((value % 256) as u8).drop_last() =~= head);
    }
}

/// A number read from `n` bytes is below `256^n`.
proof fn lemma_be_value_bound(bytes: Seq<u8>)
    ensures
        be_value(bytes) < pow256(bytes.len()),
    decreases bytes.len(),
{
    if bytes.len() > 0 {
        lemma_be_value_bound(bytes.drop_last());
    }
}

/// The first of `n >= 1` digits is the number divided by `256^(n-1)`, as far
/// as it fits a byte.
proof fn lemma_be_digits_first(value: nat, n: nat)
    requires
        n >= 1,
        value < pow256(n),
    ensures
        be_digits(value, n).len() == n,
        be_digits(value, n)[0] as nat * pow256((n - 1) as nat) <= value,
        value < (be_digits(value, n)[0] as nat + 1) * pow256((n - 1) as nat),
    decreases n,
{
    lemma_be_digits_len(value, n);
    lemma_be_digits_len(value / 256, (n - 1) as nat);
    if n == 1 {
        assert(pow256(0) == 1);
        assert(pow256(1) == 256) by {
            reveal_with_fuel(pow256, 2);
        }
    } else {
        lemma_be_digits_first(value / 256, (n - 1) as nat);
        let first = be_digits(value, n)[0] as nat;
        let below = pow256((n - 2) as nat);
        assert(pow256((n - 1) as nat) == 256 * below);
        assert(first == be_digits(value / 256, (n - 1) as nat)[0]);
        assert(first * (256 * below) == 256 * (first * below)) by (nonlinear_arith);
        assert((first + 1) * (256 * below) == 256 * ((first + 1) * below)) by (nonlinear_arith);
    }
}

/// The powers of 256 that the four length classes use.
proof fn lemma_pow256_values()
    ensures
        pow256(0) == 1,
        pow256(1) == 0x100,
        pow256(2) == 0x1_0000,
        pow256(3) == 0x100_0000,
        pow256(4) == 0x1_0000_0000,
        pow256(7) == 0x100_0000_0000_0000,
        pow256(8) == 0x1_0000_0000_0000_0000,
{
    reveal_with_fuel(pow256, 9);
}

/// `256^a <= 256^b` for `a <= b`.
proof fn lemma_pow256_monotonic(a: nat, b: nat)
    requires
        a <= b,
    ensures
        pow256(a) <= pow256(b),
    decreases b,
{
    if a < b {
        lemma_pow256_monotonic(a, (b - 1) as nat);
    }
}

/// Appends the `n` low-order bytes of `value`, most significant first.
fn push_be(value: u64, n: u8, out: &mut Vec<u8>)
    ensures
        final(out)@ == old(out)@ + be_digits(value as nat, n as nat),
    decreases n,
{
    if n > 0 {
        push_be(value / 256, n - 1, out);
        out.push((value % 256) as u8);
        assert(out@ =~= old(out)@ + be_digits(value as nat, n as nat));
    } else {
        assert(out@ =~= old(out)@ + be_digits(value as nat, n as nat));
    }
}

/// Encodes a variable-length integer onto the end of `out`.
///
/// Values up to `2^62 - 1` are written in the shortest of the four length
/// classes; larger ones are refused and `out` is left as it was.
pub fn encode_varint(value: u64, out: &mut Vec<u8>) -> (result: Result<(), EncodeError>)
    ensures
        value <= VARINT_MAX ==> result is Ok && final(out)@ == old(out)@ + varint_bytes(value),
        value > VARINT_MAX ==> result == Err::<(), EncodeError>(EncodeError::OutOfRange)
            && final(out)@ == old(out)@,
        final(out)@.len() == old(out)@.len() + varint_size(value),
{
    proof {
        lemma_be_digits_len(value as nat + varint_marker(varint_size(value)), varint_size(value));
    }
    if value <= 63 {
        push_be(value, 1, out);
        Ok(())
    } else if value <= 16_383 {
        push_be(value + 0x4000, 2, out);
        Ok(())
    } else if value <= 1_073_741_823 {
        push_be(value + 0x8000_0000, 4, out);
        Ok(())
    } else if value <= VARINT_MAX {
        push_be(value + 0xc000_0000_0000_0000, 8, out);
        Ok(())
    } else {
        Err(EncodeError::OutOfRange)
    }
}

/// Decodes the variable-length integer at the start of `input`.
///
/// Returns the value and the number of bytes it occupied. Fails with
/// `Truncated` when `input` is empty or shorter than its first byte announces.
pub fn decode_varint(input: &[u8]) -> (result: Result<(u64, usize), DecodeError>)
    ensures
        match (result, varint_decoded(input@)) {
            (Ok((value, used)), Ok((v, n))) => value == v && used == n,
            (Err(e), Err(f)) => e == f,
            _ => false,
        },
{
    if input.len() == 0 {
        return Err(DecodeError::Truncated);
    }
    let first = input[0];
    let len: usize = if first < 0x40 {
        1
    } else if first < 0x80 {
        2
    } else if first < 0xc0 {
        4
    } else {
        8
    };
    if input.len() < len {
        return Err(DecodeError::Truncated);
    }
    let mut raw: u64 = 0;
    let mut i: usize = 0;
    while i < len
        invariant
            i <= len <= input.len(),
            len <= 8,
            raw == be_value(input@.subrange(0, i as int)),
        decreases len - i,
    {
        proof {
            let next = input@.subrange(0, i as int + 1);
            assert(next.drop_last() =~= input@.subrange(0, i as int));
            lemma_be_value_bound(input@.subrange(0, i as int));
            lemma_be_value_bound(next);
            lemma_pow256_values();
            lemma_pow256_monotonic(i as nat + 1, 8);
        }
        raw = raw * 256 + input[i] as u64;
        i += 1;
    }
    let value = if len == 1 {
        assert(raw & 0x3f == raw % 0x40) by (bit_vector);
        raw & 0x3f
    } else if len == 2 {
        assert(raw & 0x3fff == raw % 0x4000) by (bit_vector);
        raw & 0x3fff
    } else if len == 4 {
        assert(raw & 0x3fff_ffff == raw % 0x4000_0000) by (bit_vector);
        raw & 0x3fff_ffff
    } else {
        assert(raw & 0x3fff_ffff_ffff_ffff == raw % 0x4000_0000_0000_0000) by (bit_vector);
        raw & 0x3fff_ffff_ffff_ffff
    };
    Ok((value, len))
}

/// Decoding the encoding of a value in range gives the value back and
/// consumes exactly the encoding, whatever bytes follow it.
pub proof fn lemma_varint_roundtrip(value: u64, rest: Seq<u8>)
    requires
        value <= VARINT_MAX,
    ensures
        varint_bytes(value).len() == varint_size(value),
        varint_decoded(varint_bytes(value) + rest) == Ok::<(u64, nat), DecodeError>(
            (value, varint_size(value)),
        ),
{
    let size = varint_size(value);
    let tagged = value as nat + varint_marker(size);
    let bytes = varint_bytes(value);
    lemma_pow256_values();
    lemma_be_digits_first(tagged, size);
    lemma_be_value_of_digits(tagged, size);
    let wire = bytes + rest;
    assert(wire[0] == bytes[0]);
    assert(wire.subrange(0, size as int) =~= bytes);
    let first = bytes[0] as nat;
    let unit = pow256((size - 1) as nat);
    assert(first * unit <= tagged < (first + 1) * unit);
    if size == 1 {
        assert(first < 0x40) by (nonlinear_arith)
            requires
                first * unit <= tagged,
                unit == 1,
                tagged < 0x40,
        ;
    } else if size == 2 {
        assert(0x40 <= first < 0x80) by (nonlinear_arith)
            requires
                first * unit <= tagged < (first + 1) * unit,
                unit == 0x100,
                0x4000 <= tagged < 0x8000,
        ;
    } else if size == 4 {
        assert(0x80 <= first < 0xc0) by (nonlinear_arith)
            requires
                first * unit <= tagged < (first + 1) * unit,
                unit == 0x100_0000,
                0x8000_0000 <= tagged < 0xc000_0000,
        ;
    } else {
        assert(0xc0 <= first) by (nonlinear_arith)
            requires
                tagged < (first + 1) * unit,
                unit == 0x100_0000_0000_0000,
                0xc000_0000_0000_0000 <= tagged,
        ;
    }
    assert(varint_announced_len(wire[0]) == size);
    assert(tagged % varint_capacity(size) == value);
}

/// Decoding fails exactly when the buffer is empty or shorter than its
/// first byte announces, and then it fails with `Truncated`.
pub proof fn lemma_decode_fails_iff_truncated(input: Seq<u8>)
    ensures
        varint_decoded(input) is Err <==> input.len() == 0 || input.len() < varint_announced_len(
            input[0],
        ),
        varint_decoded(input) is Err ==> varint_decoded(input) == Err::<(u64, nat), DecodeError>(
            DecodeError::Truncated,
        ),
{
}

/// A value beyond 62 bits has no encoding.
pub proof fn lemma_varint_out_of_range(value: u64)
    requires
        value > VARINT_MAX,
    ensures
        varint_size(value) == 0,
        varint_bytes(value) == Seq::<u8>::empty(),
{
}

/// An HTTP datagram: a context id and the bytes it labels.
#[derive(Debug, Clone, PartialEq, Eq)]
pub struct HttpDatagram {
    /// Carried on the wire as a variable-length integer.
    pub context_id: u64,
    pub payload: Vec<u8>,
}

/// The wire form of a datagram: `varint(context_id) || payload`, the payload
/// running to the end of the buffer.
pub open spec fn datagram_bytes(context_id: u64, payload: Seq<u8>) -> Seq<u8> {
    varint_bytes(context_id) + payload
}

/// What decoding makes of a buffer: the leading integer as context id and
/// all remaining bytes as payload.
pub open spec fn datagram_decoded(input: Seq<u8>) -> Result<(u64, Seq<u8>), DecodeError> {
    match varint_decoded(input) {
        Ok((context_id, used)) => Ok((context_id, input.subrange(used as int, input.len() as int))),
        Err(e) => Err(e),
    }
}

impl HttpDatagram {
    pub fn new(context_id: u64, payload: Vec<u8>) -> (datagram: Self)
        ensures
            datagram.context_id == context_id,
            datagram.payload == payload,
    {
        Self { context_id, payload }
    }

    /// Encodes as `varint(context_id) || payload`.
    pub fn encode(&self) -> (result: Result<Vec<u8>, EncodeError>)
        ensures
            self.context_id <= VARINT_MAX ==> result is Ok && result->Ok_0@ == datagram_bytes(
                self.context_id,
                self.payload@,
            ),
            self.context_id > VARINT_MAX ==> result == Err::<Vec<u8>, EncodeError>(
                EncodeError::OutOfRange,
            ),
    {
        let mut out: Vec<u8> = Vec::new();
        match encode_varint(self.context_id, &mut out) {
            Ok(()) => {},
            Err(e) => {
                return Err(e);
            },
        }
        let ghost head = out@;
        out.extend_from_slice(self.payload.as_slice());
        assert(out@ =~= head + self.payload@);
        Ok(out)
    }

    /// Decodes `varint(context_id) || payload`.
    pub fn decode(input: &[u8]) -> (result: Result<Self, DecodeError>)
        ensures
            match (result, datagram_decoded(input@)) {
                (Ok(datagram), Ok((context_id, payload))) => datagram.context_id == context_id
                    && datagram.payload@ == payload,
                (Err(e), Err(f)) => e == f,
                _ => false,
            },
    {
        match decode_varint(input) {
            Ok((context_id, used)) => {
                let rest = vstd::slice::slice_subrange(input, used, input.len());
                Ok(Self { context_id, payload: vstd::slice::slice_to_vec(rest) })
            },
            Err(e) => Err(e),
        }
    }
}

/// A datagram whose context id is in range survives encoding and decoding:
/// the same context id and the same payload come back.
pub proof fn lemma_datagram_roundtrip(context_id: u64, payload: Seq<u8>)
    requires
        context_id <= VARINT_MAX,
    ensures
        datagram_decoded(datagram_bytes(context_id, payload)) == Ok::<
            (u64, Seq<u8>),
            DecodeError,
        >((context_id, payload)),
{
    lemma_varint_roundtrip(context_id, payload);
    let wire = datagram_bytes(context_id, payload);
    assert(wire.subrange(varint_size(context_id) as int, wire.len() as int) =~= payload);
}

} // verus!
