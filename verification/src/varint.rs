//! Variable-length integers: seven bits per byte, least significant group
//! first, the high bit of a byte set while more bytes follow.

use vstd::prelude::*;

verus! {

/// Most bytes that a number of thirty-two bits takes.
pub const VAR_INT_BUF_SIZE: usize = 5;

/// What the front of a byte string holds, read as one number.
#[derive(Clone, Copy, Debug, PartialEq, Eq, Structural)]
pub enum VarIntRead {
    /// The bytes end before the number does.
    Incomplete,
    /// Five bytes in a row announce a further one.
    TooLong,
    /// A number, and how many bytes it took.
    Value { value: u32, len: usize },
}

/// 128 to the power `k`, for the five groups of a number.
pub open spec fn pow128(k: int) -> int {
    if k <= 0 {
        1
    } else if k == 1 {
        128
    } else if k == 2 {
        16_384
    } else if k == 3 {
        2_097_152
    } else {
        268_435_456
    }
}

/// The `i`-th group of seven bits of `x`, counted from the low end.
pub open spec fn group(x: u32, i: int) -> int {
    (x as int / pow128(i)) % 128
}

/// Number of bytes that `x` is written in.
pub open spec fn encoded_len(x: u32) -> int {
    if x < 128 {
        1
    } else if x < 16_384 {
        2
    } else if x < 2_097_152 {
        3
    } else if x < 268_435_456 {
        4
    } else {
        5
    }
}

/// The bytes of `x`: its groups from the low end, each but the last with
/// the high bit set.
pub open spec fn spec_encode(x: u32) -> Seq<u8> {
    Seq::new(
        encoded_len(x) as nat,
        |i: int|
            if i + 1 < encoded_len(x) {
                (group(x, i) + 128) as u8
            } else {
                group(x, i) as u8
            },
    )
}

/// Sum of the first `n` groups of `bytes`, each at its place.
pub open spec fn groups_value(bytes: Seq<u8>, n: int) -> int
    decreases n,
{
    if n <= 0 {
        0
    } else {
        groups_value(bytes, n - 1) + (bytes[n - 1] as int % 128) * pow128(n - 1)
    }
}

/// Reads on from byte `pos`, all bytes before it having announced a
/// further one.
pub open spec fn spec_decode_from(bytes: Seq<u8>, pos: int) -> VarIntRead
    decreases 5 - pos,
{
    if pos >= 5 {
        VarIntRead::TooLong
    } else if pos < 0 || pos >= bytes.len() {
        VarIntRead::Incomplete
    } else if bytes[pos] < 128 {
        VarIntRead::Value {
            value: (groups_value(bytes, pos + 1) % 0x1_0000_0000) as u32,
            len: (pos + 1) as usize,
        }
    } else {
        spec_decode_from(bytes, pos + 1)
    }
}

/// The number at the front of `bytes`. Bits beyond the thirty-second are
/// dropped; a fifth byte that announces a sixth is refused without looking
/// for it.
pub open spec fn spec_decode(bytes: Seq<u8>) -> VarIntRead {
    spec_decode_from(bytes, 0)
}

/// Appends the bytes of `x` to `out`.
pub fn write_varint(x: u32, out: &mut Vec<u8>)
    ensures
        final(out)@ == old(out)@ + spec_encode(x),
{
    let ghost before = out@;
    let mut rest: u32 = x;
    let mut i: usize = 0;
    loop
        invariant_except_break
            0 <= i < encoded_len(x),
            rest as int == x as int / pow128(i as int),
            out@.len() == before.len() + i,
            out@ == before + spec_encode(x).take(i as int),
        ensures
            out@ == before + spec_encode(x),
        decreases 5 - i,
    {
        let low: u8 = (rest & 0x7f) as u8;
        assert(rest & 0x7f == rest % 128) by (bit_vector);
        assert(rest >> 7 == rest / 128) by (bit_vector);
        let more: u32 = rest >> 7;
        assert(low as int == group(x, i as int));
        assert(more != 0 <==> i + 1 < encoded_len(x));
        if more != 0 {
            assert(low | 0x80 == low + 128) by (bit_vector)
                requires
                    low < 128,
            ;
            out.push(low | 0x80);
            assert(out@ =~= before + spec_encode(x).take(i as int + 1));
            rest = more;
            i = i + 1;
        } else {
            out.push(low);
            assert(out@ =~= before + spec_encode(x));
            break;
        }
    }
}

/// The bytes of `x`.
pub fn encode_varint(x: u32) -> (out: Vec<u8>)
    ensures
        out@ == spec_encode(x),
        1 <= out@.len() <= 5,
{
    let mut out: Vec<u8> = Vec::new();
    write_varint(x, &mut out);
    assert(out@ =~= spec_encode(x));
    out
}

/// Reads the number at the front of `bytes`.
pub fn decode_varint(bytes: &[u8]) -> (r: VarIntRead)
    ensures
        r == spec_decode(bytes@),
        r matches VarIntRead::Value { len, .. } ==> 1 <= len <= 5 && len <= bytes@.len(),
{
    let mut accumulator: u32 = 0;
    let mut position: usize = 0;
    loop
        invariant
            position < 5,
            accumulator as int == groups_value(bytes@, position as int),
            accumulator < pow128(position as int),
            spec_decode(bytes@) == spec_decode_from(bytes@, position as int),
        decreases 5 - position,
    {
        if position >= bytes.len() {
            return VarIntRead::Incomplete;
        }
        let current_byte: u8 = bytes[position];
        let low: u32 = (current_byte & 0x7f) as u32;
        assert(current_byte & 0x7f == current_byte % 128) by (bit_vector);
        let shift: u32 = (position * 7) as u32;
        let ghost before = accumulator;
        assert((before | (low << shift)) as int == (before as int + low as int * pow128(
            position as int,
        )) % 0x1_0000_0000 && (shift < 28 ==> (before | (low << shift)) == before + low * pow128(
            position as int,
        ))) by {
            lemma_place_group(before, low, position);
        }
        accumulator |= low << shift;
        position += 1;
        assert((current_byte & 0x80) == 0 <==> current_byte < 128) by (bit_vector);
        if (current_byte & 0x80) == 0 {
            return VarIntRead::Value { value: accumulator, len: position };
        }
        if position >= VAR_INT_BUF_SIZE {
            return VarIntRead::TooLong;
        }
    }
}

/// Or-ing a group into its place adds it, as long as the lower groups stay
/// below that place.
proof fn lemma_place_group(acc: u32, low: u32, position: usize)
    requires
        position < 5,
        low < 128,
        acc < pow128(position as int),
    ensures
        (acc | (low << ((position * 7) as u32))) as int == (acc as int + low as int * pow128(
            position as int,
        )) % 0x1_0000_0000,
        position < 4 ==> (acc | (low << ((position * 7) as u32))) == acc + low * pow128(
            position as int,
        ),
        position < 4 ==> acc + low * pow128(position as int) < pow128(position as int + 1),
{
    if position == 0 {
        assert(acc | (low << 0u32) == low) by (bit_vector)
            requires
                acc == 0,
        ;
    } else if position == 1 {
        assert(acc | (low << 7u32) == acc + low * 128) by (bit_vector)
            requires
                acc < 128,
                low < 128,
        ;
    } else if position == 2 {
        assert(acc | (low << 14u32) == acc + low * 16_384) by (bit_vector)
            requires
                acc < 16_384,
                low < 128,
        ;
    } else if position == 3 {
        assert(acc | (low << 21u32) == acc + low * 2_097_152) by (bit_vector)
            requires
                acc < 2_097_152,
                low < 128,
        ;
    } else {
        assert((acc | (low << 28u32)) as int == (acc as int + low as int * 268_435_456)
            % 0x1_0000_0000) by (bit_vector)
            requires
                acc < 268_435_456,
                low < 128,
        ;
    }
}

/// The groups of a written number add up to it.
proof fn lemma_groups_of_encoding(x: u32, rest: Seq<u8>)
    ensures
        groups_value(spec_encode(x) + rest, encoded_len(x)) == x,
        forall|i: int| 0 <= i < encoded_len(x) - 1 ==> (spec_encode(x) + rest)[i] >= 128,
        (spec_encode(x) + rest)[encoded_len(x) - 1] < 128,
{
    let bytes = spec_encode(x) + rest;
    let n = encoded_len(x);
    assert forall|i: int| 0 <= i < n implies bytes[i] as int % 128 == group(x, i) by {
        assert(bytes[i] == spec_encode(x)[i]);
    }
    let q1 = x as int / 128;
    let q2 = q1 / 128;
    let q3 = q2 / 128;
    let q4 = q3 / 128;
    assert(q2 == x as int / 16_384);
    assert(q3 == x as int / 2_097_152);
    assert(q4 == x as int / 268_435_456);
    assert(groups_value(bytes, 0) == 0);
    assert(groups_value(bytes, 1) == x as int % 128);
    if n >= 2 {
        assert(groups_value(bytes, 2) == groups_value(bytes, 1) + (q1 % 128) * 128);
    }
    if n >= 3 {
        assert(groups_value(bytes, 3) == groups_value(bytes, 2) + (q2 % 128) * 16_384);
    }
    if n >= 4 {
        assert(groups_value(bytes, 4) == groups_value(bytes, 3) + (q3 % 128) * 2_097_152);
    }
    if n >= 5 {
        assert(groups_value(bytes, 5) == groups_value(bytes, 4) + (q4 % 128) * 268_435_456);
    }
    assert(groups_value(bytes, n) == x);
}

/// Reading back what was written gives the number and the count of its
/// bytes, whatever follows them.
pub proof fn lemma_varint_round_trip(x: u32, rest: Seq<u8>)
    ensures
        spec_decode(spec_encode(x) + rest) == (VarIntRead::Value {
            value: x,
            len: encoded_len(x) as usize,
        }),
{
    lemma_groups_of_encoding(x, rest);
    reveal_with_fuel(spec_decode_from, 6);
}

/// Five bytes that each announce another one are refused, whatever follows.
pub proof fn lemma_varint_sixth_byte_refused(bytes: Seq<u8>)
    requires
        bytes.len() >= 5,
        forall|i: int| 0 <= i < 5 ==> bytes[i] >= 128,
    ensures
        spec_decode(bytes) == VarIntRead::TooLong,
{
    reveal_with_fuel(spec_decode_from, 6);
}

/// The first `n` groups of a byte string do not change when bytes are put
/// behind it.
proof fn lemma_groups_extend(a: Seq<u8>, b: Seq<u8>, n: int)
    requires
        0 <= n <= a.len(),
    ensures
        groups_value(a + b, n) == groups_value(a, n),
    decreases n,
{
    if n > 0 {
        lemma_groups_extend(a, b, n - 1);
        assert((a + b)[n - 1] == a[n - 1]);
    }
}

/// Reading on from `pos` gives the same for a byte string and for a longer
/// one that starts with it, unless the shorter one ends too early.
proof fn lemma_decode_from_extends(a: Seq<u8>, b: Seq<u8>, pos: int)
    requires
        0 <= pos,
    ensures
        !(spec_decode_from(a, pos) is Incomplete) ==> spec_decode_from(a + b, pos)
            == spec_decode_from(a, pos),
    decreases 5 - pos,
{
    if pos < 5 && pos < a.len() {
        assert((a + b)[pos] == a[pos]);
        if a[pos] < 128 {
            lemma_groups_extend(a, b, pos + 1);
        } else {
            lemma_decode_from_extends(a, b, pos + 1);
        }
    }
}

/// A number, or a refusal, that the front of a stream gives stays as it is
/// when more bytes arrive; only a number that is cut short can still
/// change.
pub proof fn lemma_decode_extends(a: Seq<u8>, b: Seq<u8>)
    ensures
        !(spec_decode(a) is Incomplete) ==> spec_decode(a + b) == spec_decode(a),
{
    lemma_decode_from_extends(a, b, 0);
}

/// Five bytes always decide: they hold a number or are refused.
pub proof fn lemma_decode_five_decides(bytes: Seq<u8>)
    requires
        bytes.len() >= 5,
    ensures
        !(spec_decode(bytes) is Incomplete),
{
    reveal_with_fuel(spec_decode_from, 6);
}

/// A number that was read took between one and five bytes, all of them
/// there; and nothing is read from no bytes.
pub proof fn lemma_decode_bounds(bytes: Seq<u8>)
    ensures
        spec_decode(bytes) matches VarIntRead::Value { len, .. } ==> 1 <= len <= 5 && len
            <= bytes.len(),
        bytes.len() == 0 ==> spec_decode(bytes) == VarIntRead::Incomplete,
{
    reveal_with_fuel(spec_decode_from, 6);
}

} // verus!
