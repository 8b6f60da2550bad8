//! The variable-length integer of the JE protocol: seven bits to a byte,
//! least significant group first, the top bit of a byte set while more
//! bytes follow. A 32-bit value takes at most five bytes.

use vstd::prelude::*;

verus! {

/// The most bytes one variable-length integer may take.
pub const MAX_VARINT_LEN: usize = 5;

/// The bytes that stand for `v`.
pub open spec fn varint_encoding(v: nat) -> Seq<u8>
    decreases v,
{
    if v < 128 {
        seq![v as u8]
    } else {
        seq![(128 + v % 128) as u8] + varint_encoding(v / 128)
    }
}

/// The 32 bits of `val` read as an unsigned number.
pub open spec fn bits_of(val: i32) -> nat {
    if val >= 0 {
        val as nat
    } else {
        (val + 0x1_0000_0000) as nat
    }
}

/// The signed number whose 32 bits are the low 32 bits of `n`.
pub open spec fn wrap_i32(n: nat) -> i32 {
    let low = n % 0x1_0000_0000;
    if low < 0x8000_0000 {
        low as i32
    } else {
        (low - 0x1_0000_0000) as i32
    }
}

/// What reading one variable-length integer from the front of some bytes
/// comes to.
pub enum VarIntScan {
    /// A complete integer: the groups read, least significant first, and
    /// the number of bytes they took.
    Value { value: nat, len: nat },
    /// The bytes end before the integer does.
    Truncated,
    /// The byte that should have been the last still announces another.
    TooLarge,
}

/// Reads one variable-length integer from the front of `bytes`, allowing it
/// at most `budget` bytes.
pub open spec fn varint_scan(bytes: Seq<u8>, budget: nat) -> VarIntScan
    decreases budget,
{
    if budget == 0 {
        VarIntScan::TooLarge
    } else if bytes.len() == 0 {
        VarIntScan::Truncated
    } else if bytes[0] < 128 {
        VarIntScan::Value { value: bytes[0] as nat, len: 1 }
    } else {
        match varint_scan(bytes.skip(1), (budget - 1) as nat) {
            VarIntScan::Value { value, len } => VarIntScan::Value {
                value: (bytes[0] - 128) as nat + 128 * value,
                len: len + 1,
            },
            VarIntScan::Truncated => VarIntScan::Truncated,
            VarIntScan::TooLarge => VarIntScan::TooLarge,
        }
    }
}

/// Why a variable-length integer could not be read.
#[derive(Clone, Copy, Debug, PartialEq, Eq, Structural)]
pub enum VarIntError {
    /// The bytes end before the integer does.
    Truncated,
    /// The fifth byte announces a sixth.
    TooLarge,
}

/// What `read_varint` returns for `bytes`: the integer at the front of them
/// and the number of bytes it took, or the reason there is none.
pub open spec fn varint_decoding(bytes: Seq<u8>) -> Result<(i32, nat), VarIntError> {
    match varint_scan(bytes, MAX_VARINT_LEN as nat) {
        VarIntScan::Value { value, len } => Ok((wrap_i32(value), len)),
        VarIntScan::Truncated => Err(VarIntError::Truncated),
        VarIntScan::TooLarge => Err(VarIntError::TooLarge),
    }
}

/// An encoding is one to five bytes long when the value has 32 bits.
pub proof fn lemma_encoding_len(v: nat)
    ensures
        1 <= varint_encoding(v).len(),
        v < 0x80 ==> varint_encoding(v).len() == 1,
        v < 0x4000 ==> varint_encoding(v).len() <= 2,
        v < 0x20_0000 ==> varint_encoding(v).len() <= 3,
        v < 0x1000_0000 ==> varint_encoding(v).len() <= 4,
        v < 0x8_0000_0000 ==> varint_encoding(v).len() <= 5,
    decreases v,
{
    if v >= 128 {
        lemma_encoding_len(v / 128);
    }
}

/// Scanning an encoding gives the value back and stops where the encoding
/// ends, whatever follows it.
pub proof fn lemma_scan_encoding(v: nat, rest: Seq<u8>, budget: nat)
    requires
        varint_encoding(v).len() <= budget,
    ensures
        varint_scan(varint_encoding(v) + rest, budget) == (VarIntScan::Value {
            value: v,
            len: varint_encoding(v).len(),
        }),
    decreases v,
{
    let enc = varint_encoding(v);
    let all = enc + rest;
    if v < 128 {
    } else {
        let tail = varint_encoding(v / 128);
        assert(all.skip(1) =~= tail + rest);
        lemma_scan_encoding(v / 128, rest, (budget - 1) as nat);
    }
}

/// The signed reading of the 32 bits of a value is that value.
pub proof fn lemma_wrap_bits(val: i32)
    ensures
        bits_of(val) < 0x1_0000_0000,
        wrap_i32(bits_of(val)) == val,
{
}

/// Decoding what `put_varint` wrote for `val` gives `val` back, together
/// with the length of what was written: the codec round-trips on every
/// 32-bit value, and so on every value from 0 to 2^31 - 1.
pub proof fn lemma_varint_round_trip(val: i32, rest: Seq<u8>)
    ensures
        varint_decoding(varint_encoding(bits_of(val)) + rest) == Ok::<(i32, nat), VarIntError>(
            (val, varint_encoding(bits_of(val)).len()),
        ),
{
    lemma_wrap_bits(val);
    lemma_encoding_len(bits_of(val));
    lemma_scan_encoding(bits_of(val), rest, MAX_VARINT_LEN as nat);
}

/// Five bytes that all announce a successor are no integer, whatever
/// follows them.
pub proof fn lemma_sixth_byte_rejected(bytes: Seq<u8>)
    requires
        bytes.len() >= 5,
        forall|i: int| 0 <= i < 5 ==> bytes[i] >= 128,
    ensures
        varint_decoding(bytes) == Err::<(i32, nat), VarIntError>(VarIntError::TooLarge),
{
    reveal_with_fuel(varint_scan, 6);
    let b1 = bytes.skip(1);
    let b2 = b1.skip(1);
    let b3 = b2.skip(1);
    let b4 = b3.skip(1);
}

/// Appends the encoding of `val` to `buf`.
pub fn put_varint(buf: &mut Vec<u8>, val: i32)
    ensures
        final(buf)@ == old(buf)@ + varint_encoding(bits_of(val)),
{
    let mut v: u32 = if val >= 0 {
        val as u32
    } else {
        (val as i64 + 0x1_0000_0000) as u32
    };
    while v >= 128
        invariant
            buf@ + varint_encoding(v as nat) == old(buf)@ + varint_encoding(bits_of(val)),
        decreases v,
    {
        let group: u8 = (128 + v % 128) as u8;
        buf.push(group);
        v = v / 128;
    }
    buf.push(v as u8);
}

/// What `read_varint` returns for the integer that starts at index `start`
/// of `bytes`: the integer and the index of the first byte after it, or the
/// reason there is none. Past the end of `bytes` there is nothing to read.
pub open spec fn varint_decoding_at(bytes: Seq<u8>, start: int) -> Result<(i32, int), VarIntError> {
    if 0 <= start <= bytes.len() {
        match varint_decoding(bytes.skip(start)) {
            Ok((value, len)) => Ok((value, start + len)),
            Err(e) => Err(e),
        }
    } else {
        Err(VarIntError::Truncated)
    }
}

/// Reading at the place where `put_varint` wrote `val` gives `val` back and
/// the index of the first byte after it, whatever the buffer held before
/// and whatever was appended after.
pub proof fn lemma_varint_round_trip_at(before: Seq<u8>, val: i32, after: Seq<u8>)
    ensures
        varint_decoding_at(
            before + varint_encoding(bits_of(val)) + after,
            before.len() as int,
        ) == Ok::<(i32, int), VarIntError>(
            (val, (before.len() + varint_encoding(bits_of(val)).len()) as int),
        ),
{
    let written = varint_encoding(bits_of(val));
    lemma_varint_round_trip(val, after);
    assert((before + written + after).skip(before.len() as int) =~= written + after);
}

/// A complete integer ends within the bytes it was read from.
pub proof fn lemma_scan_within(bytes: Seq<u8>, budget: nat)
    ensures
        varint_scan(bytes, budget) matches VarIntScan::Value { value, len } ==> 1 <= len
            <= bytes.len() && len <= budget,
    decreases budget,
{
    if budget > 0 && bytes.len() > 0 && bytes[0] >= 128 {
        lemma_scan_within(bytes.skip(1), (budget - 1) as nat);
    }
}

/// Reads the integer that starts at `data[start]`. Returns it with the
/// index of the first byte after it.
pub fn read_varint(data: &[u8], start: usize) -> (res: Result<(i32, usize), VarIntError>)
    ensures
        match varint_decoding_at(data@, start as int) {
            Ok((value, next)) => res == Ok::<(i32, usize), VarIntError>((value, next as usize))
                && start < next <= data@.len() && next - start <= MAX_VARINT_LEN,
            Err(e) => res == Err::<(i32, usize), VarIntError>(e),
        },
{
    if start > data.len() {
        return Err(VarIntError::Truncated);
    }
    proof {
        lemma_scan_within(data@.skip(start as int), MAX_VARINT_LEN as nat);
    }
    let ghost input = data@.skip(start as int);
    let mut acc: u64 = 0;
    let mut scale: u64 = 1;
    let mut k: usize = 0;
    assert(input.skip(0) =~= input);
    while k < MAX_VARINT_LEN
        invariant
            start <= data@.len(),
            input == data@.skip(start as int),
            k <= MAX_VARINT_LEN,
            start + k <= data@.len(),
            acc < scale,
            k == 0 ==> scale == 1,
            k == 1 ==> scale == 0x80,
            k == 2 ==> scale == 0x4000,
            k == 3 ==> scale == 0x20_0000,
            k == 4 ==> scale == 0x1000_0000,
            k == 5 ==> scale == 0x8_0000_0000,
            varint_scan(input, MAX_VARINT_LEN as nat) == lift_scan(
                varint_scan(input.skip(k as int), (MAX_VARINT_LEN - k) as nat),
                acc as nat,
                scale as nat,
                k as nat,
            ),
        decreases MAX_VARINT_LEN - k,
    {
        let ghost here = input.skip(k as int);
        if k >= data.len() - start {
            return Err(VarIntError::Truncated);
        }
        let byte = data[start + k];
        assert(here[0] == byte);
        assert(here.skip(1) =~= input.skip(k + 1));
        assert(scale <= 0x1000_0000);
        assert((byte as u64) * scale <= 0xff * 0x1000_0000) by (nonlinear_arith)
            requires
                byte <= 0xff,
                scale <= 0x1000_0000,
        ;
        if byte < 128 {
            let total: u64 = acc + (byte as u64) * scale;
            let low: u64 = total % 0x1_0000_0000;
            let value: i32 = if low < 0x8000_0000 {
                low as i32
            } else {
                (low as i64 - 0x1_0000_0000) as i32
            };
            return Ok((value, start + k + 1));
        }
        proof {
            let rest = varint_scan(input.skip(k + 1), (MAX_VARINT_LEN - k - 1) as nat);
            if let VarIntScan::Value { value, len } = rest {
                let group = (byte - 128) as nat;
                let unit = scale as nat;
                assert(unit * (group + 128 * value) == group * unit + (unit * 128) * value)
                    by (nonlinear_arith);
            }
        }
        assert(((byte - 128) as u64) * scale <= 0x7f * scale) by (nonlinear_arith)
            requires
                128 <= byte <= 0xff,
        ;
        acc = acc + ((byte - 128) as u64) * scale;
        scale = scale * 128;
        k = k + 1;
    }
    Err(VarIntError::TooLarge)
}

/// A scan of the bytes after the first `k`, carried back to the front:
/// `low` holds the groups already read and `scale` is 128 to the `k`.
pub open spec fn lift_scan(tail: VarIntScan, low: nat, scale: nat, k: nat) -> VarIntScan {
    match tail {
        VarIntScan::Value { value, len } => VarIntScan::Value {
            value: low + scale * value,
            len: len + k,
        },
        VarIntScan::Truncated => VarIntScan::Truncated,
        VarIntScan::TooLarge => VarIntScan::TooLarge,
    }
}

} // verus!
