//! Values that packets are made of.

use crate::protocol::{DeserializeErr, SerializeErr};
use crate::varint::{
    decode_varint, encoded_len, lemma_varint_round_trip, spec_decode, spec_encode, write_varint,
    VarIntRead,
};
use vstd::prelude::*;
use vstd::string::StringSliceAdditionalSpecFns;
use vstd::utf8::{decode_utf8, encode_utf8, valid_utf8};

verus! {

/// A number that is written in one to five bytes.
#[derive(Clone, Copy, Debug, PartialEq, Eq, Structural)]
pub struct VarInt(pub i32);

/// Styling of a piece of chat text.
#[derive(Clone, Copy, Debug, PartialEq, Eq, Structural)]
pub struct BaseComponent {
    pub bold: bool,
    pub italic: bool,
    pub underlined: bool,
    pub strikethrough: bool,
    pub obfuscated: bool,
}

impl BaseComponent {
    /// No styling at all.
    pub open spec fn plain() -> Self {
        BaseComponent {
            bold: false,
            italic: false,
            underlined: false,
            strikethrough: false,
            obfuscated: false,
        }
    }
}

impl Default for BaseComponent {
    fn default() -> (r: Self)
        ensures
            r == Self::plain(),
    {
        BaseComponent {
            bold: false,
            italic: false,
            underlined: false,
            strikethrough: false,
            obfuscated: false,
        }
    }
}

/// A piece of chat text with its styling.
#[derive(Clone, Debug)]
pub struct TextComponent {
    pub text: String,
    pub base: BaseComponent,
}

/// A chat message.
#[derive(Clone, Debug)]
pub enum Chat {
    Text(TextComponent),
}

/// Largest length that a field can announce.
pub const MAX_FIELD_LEN: usize = 0x7fff_ffff;

// What the fields look like on the wire.

/// A number of thirty-two bits, written through its bit pattern.
pub open spec fn ser_varint(v: i32) -> Seq<u8> {
    spec_encode(v as u32)
}

/// Two bytes, the high one first.
pub open spec fn ser_u16(v: u16) -> Seq<u8> {
    seq![(v / 256) as u8, (v % 256) as u8]
}

/// Eight bytes, the highest first.
pub open spec fn ser_u64(v: u64) -> Seq<u8> {
    seq![
        (v / 0x100_0000_0000_0000) as u8,
        (v / 0x1_0000_0000_0000 % 256) as u8,
        (v / 0x100_0000_0000 % 256) as u8,
        (v / 0x1_0000_0000 % 256) as u8,
        (v / 0x100_0000 % 256) as u8,
        (v / 0x1_0000 % 256) as u8,
        (v / 0x100 % 256) as u8,
        (v % 256) as u8,
    ]
}

/// Sixteen bytes, the highest first.
pub open spec fn ser_u128(v: u128) -> Seq<u8> {
    ser_u64((v / 0x1_0000_0000_0000_0000) as u64) + ser_u64((v % 0x1_0000_0000_0000_0000) as u64)
}

/// One byte, 1 for true.
pub open spec fn ser_bool(v: bool) -> Seq<u8> {
    seq![if v { 1u8 } else { 0u8 }]
}

/// The count of the bytes, then the bytes.
pub open spec fn ser_bytes(b: Seq<u8>) -> Seq<u8> {
    spec_encode(b.len() as u32) + b
}

/// The text in UTF-8, as counted bytes.
pub open spec fn ser_string(s: Seq<char>) -> Seq<u8> {
    ser_bytes(encode_utf8(s))
}

/// A flag, and the text where the flag is set.
pub open spec fn ser_opt_string(s: Option<Seq<char>>) -> Seq<u8> {
    match s {
        Some(t) => ser_bool(true) + ser_string(t),
        None => ser_bool(false),
    }
}

// What reading a field at position `pos` of `data` gives: the value and the
// position behind it, or the reason why there is none.

/// One byte.
pub open spec fn spec_read_u8(data: Seq<u8>, pos: int) -> Result<(u8, int), DeserializeErr> {
    if 0 <= pos < data.len() {
        Ok((data[pos], pos + 1))
    } else {
        Err(DeserializeErr::Eof)
    }
}

/// One byte that is 0 or 1.
pub open spec fn spec_read_bool(data: Seq<u8>, pos: int) -> Result<(bool, int), DeserializeErr> {
    if 0 <= pos < data.len() {
        if data[pos] == 0 {
            Ok((false, pos + 1))
        } else if data[pos] == 1 {
            Ok((true, pos + 1))
        } else {
            Err(DeserializeErr::InvalidBool)
        }
    } else {
        Err(DeserializeErr::Eof)
    }
}

/// Two bytes, the high one first.
pub open spec fn spec_read_u16(data: Seq<u8>, pos: int) -> Result<(u16, int), DeserializeErr> {
    if 0 <= pos && pos + 2 <= data.len() {
        Ok(((data[pos] as int * 256 + data[pos + 1] as int) as u16, pos + 2))
    } else {
        Err(DeserializeErr::Eof)
    }
}

/// The number that eight bytes from `pos` on stand for, the highest first.
pub open spec fn be_u64_at(data: Seq<u8>, pos: int) -> int {
    ((((((data[pos] as int * 256 + data[pos + 1] as int) * 256 + data[pos + 2] as int) * 256
        + data[pos + 3] as int) * 256 + data[pos + 4] as int) * 256 + data[pos + 5] as int) * 256
        + data[pos + 6] as int) * 256 + data[pos + 7] as int
}

/// Eight bytes, the highest first.
pub open spec fn spec_read_u64(data: Seq<u8>, pos: int) -> Result<(u64, int), DeserializeErr> {
    if 0 <= pos && pos + 8 <= data.len() {
        Ok((be_u64_at(data, pos) as u64, pos + 8))
    } else {
        Err(DeserializeErr::Eof)
    }
}

/// Sixteen bytes, the highest first.
pub open spec fn spec_read_u128(data: Seq<u8>, pos: int) -> Result<(u128, int), DeserializeErr> {
    if 0 <= pos && pos + 16 <= data.len() {
        Ok(
            (
                (be_u64_at(data, pos) * 0x1_0000_0000_0000_0000 + be_u64_at(data, pos + 8)) as u128,
                pos + 16,
            ),
        )
    } else {
        Err(DeserializeErr::Eof)
    }
}

/// A number of one to five bytes, taken through its bit pattern.
pub open spec fn spec_read_varint(data: Seq<u8>, pos: int) -> Result<(i32, int), DeserializeErr> {
    if 0 <= pos <= data.len() {
        match spec_decode(data.skip(pos)) {
            VarIntRead::Value { value, len } => Ok((value as i32, pos + len)),
            VarIntRead::Incomplete => Err(DeserializeErr::Eof),
            VarIntRead::TooLong => Err(DeserializeErr::VarNumTooLong),
        }
    } else {
        Err(DeserializeErr::Eof)
    }
}

/// A count that is not negative, then as many bytes.
pub open spec fn spec_read_bytes(data: Seq<u8>, pos: int) -> Result<(Seq<u8>, int), DeserializeErr> {
    match spec_read_varint(data, pos) {
        Err(e) => Err(e),
        Ok((count, start)) => if count < 0 {
            Err(DeserializeErr::NegativeLength)
        } else if start + count > data.len() {
            Err(DeserializeErr::Eof)
        } else {
            Ok((data.subrange(start, start + count), start + count))
        },
    }
}

/// Counted bytes that are UTF-8.
pub open spec fn spec_read_string(data: Seq<u8>, pos: int) -> Result<
    (Seq<char>, int),
    DeserializeErr,
> {
    match spec_read_bytes(data, pos) {
        Err(e) => Err(e),
        Ok((bytes, next)) => if valid_utf8(bytes) {
            Ok((decode_utf8(bytes), next))
        } else {
            Err(DeserializeErr::BadStringEncoding)
        },
    }
}

/// A flag, and a text where the flag is set.
pub open spec fn spec_read_opt_string(data: Seq<u8>, pos: int) -> Result<
    (Option<Seq<char>>, int),
    DeserializeErr,
> {
    match spec_read_bool(data, pos) {
        Err(e) => Err(e),
        Ok((present, next)) => if !present {
            Ok((None, next))
        } else {
            match spec_read_string(data, next) {
                Err(e) => Err(e),
                Ok((s, after)) => Ok((Some(s), after)),
            }
        },
    }
}

/// `String::from_utf8` of std: the text that the bytes encode, or nothing
/// where they are not UTF-8.
#[verifier::external_body]
fn string_from_utf8(bytes: Vec<u8>) -> (r: Option<String>)
    ensures
        r is Some <==> valid_utf8(bytes@),
        r matches Some(s) ==> s@ == decode_utf8(bytes@),
{
    match String::from_utf8(bytes) {
        Ok(s) => Some(s),
        Err(_) => None,
    }
}

/// Whether two byte strings hold the same bytes.
pub fn bytes_equal(a: &[u8], b: &[u8]) -> (r: bool)
    ensures
        r <==> a@ == b@,
{
    if a.len() != b.len() {
        return false;
    }
    let mut i: usize = 0;
    while i < a.len()
        invariant
            i <= a@.len(),
            a@.len() == b@.len(),
            a@.take(i as int) == b@.take(i as int),
        decreases a@.len() - i,
    {
        if a[i] != b[i] {
            assert(a@[i as int] != b@[i as int]);
            return false;
        }
        i = i + 1;
        assert(a@.take(i as int) =~= a@.take(i - 1).push(a@[i - 1]));
        assert(b@.take(i as int) =~= b@.take(i - 1).push(b@[i - 1]));
    }
    assert(a@.take(i as int) =~= a@);
    assert(b@.take(i as int) =~= b@);
    true
}

/// Appends `data` to `out`.
pub fn append_bytes(out: &mut Vec<u8>, data: &[u8])
    ensures
        final(out)@ == old(out)@ + data@,
{
    let ghost before = out@;
    let mut i: usize = 0;
    while i < data.len()
        invariant
            i <= data@.len(),
            out@ == before + data@.take(i as int),
        decreases data@.len() - i,
    {
        out.push(data[i]);
        i = i + 1;
        assert(out@ =~= before + data@.take(i as int));
    }
    assert(data@.take(i as int) =~= data@);
}

/// Appending a piece behind what was appended before appends both at once.
pub proof fn lemma_append_step(before: Seq<u8>, acc: Seq<u8>, piece: Seq<u8>)
    ensures
        (before + acc) + piece == before + (acc + piece),
{
    assert((before + acc) + piece =~= before + (acc + piece));
}

/// Appends one byte.
pub fn write_u8(v: u8, out: &mut Vec<u8>)
    ensures
        final(out)@ == old(out)@ + seq![v],
{
    let ghost before = out@;
    out.push(v);
    assert(out@ =~= before + seq![v]);
}

/// Appends two bytes, the high one first.
pub fn write_u16(v: u16, out: &mut Vec<u8>)
    ensures
        final(out)@ == old(out)@ + ser_u16(v),
{
    let ghost before = out@;
    out.push((v / 256) as u8);
    out.push((v % 256) as u8);
    assert(out@ =~= before + ser_u16(v));
}

/// Appends eight bytes, the highest first.
pub fn write_u64(v: u64, out: &mut Vec<u8>)
    ensures
        final(out)@ == old(out)@ + ser_u64(v),
{
    let ghost before = out@;
    out.push((v / 0x100_0000_0000_0000) as u8);
    out.push((v / 0x1_0000_0000_0000 % 256) as u8);
    out.push((v / 0x100_0000_0000 % 256) as u8);
    out.push((v / 0x1_0000_0000 % 256) as u8);
    out.push((v / 0x100_0000 % 256) as u8);
    out.push((v / 0x1_0000 % 256) as u8);
    out.push((v / 0x100 % 256) as u8);
    out.push((v % 256) as u8);
    assert(out@ =~= before + ser_u64(v));
}

/// Appends sixteen bytes, the highest first.
pub fn write_u128(v: u128, out: &mut Vec<u8>)
    ensures
        final(out)@ == old(out)@ + ser_u128(v),
{
    let ghost before = out@;
    write_u64((v / 0x1_0000_0000_0000_0000) as u64, out);
    write_u64((v % 0x1_0000_0000_0000_0000) as u64, out);
    assert(out@ =~= before + ser_u128(v));
}

/// Appends one byte, 1 for true.
pub fn write_bool(v: bool, out: &mut Vec<u8>)
    ensures
        final(out)@ == old(out)@ + ser_bool(v),
{
    let ghost before = out@;
    out.push(if v { 1u8 } else { 0u8 });
    assert(out@ =~= before + ser_bool(v));
}

/// Appends counted bytes; refuses, writing nothing, more bytes than a count
/// can announce.
pub fn write_bytes(data: &[u8], out: &mut Vec<u8>) -> (r: Result<(), SerializeErr>)
    ensures
        r is Ok <==> data@.len() <= MAX_FIELD_LEN,
        r is Ok ==> final(out)@ == old(out)@ + ser_bytes(data@),
        r is Err ==> r == Err::<(), SerializeErr>(SerializeErr::LengthTooLarge) && final(out)@
            == old(out)@,
{
    if data.len() > MAX_FIELD_LEN {
        return Err(SerializeErr::LengthTooLarge);
    }
    let ghost before = out@;
    write_varint(data.len() as u32, out);
    append_bytes(out, data);
    assert(out@ =~= before + ser_bytes(data@));
    Ok(())
}

/// Appends a text as counted UTF-8 bytes.
pub fn write_string(s: &str, out: &mut Vec<u8>) -> (r: Result<(), SerializeErr>)
    ensures
        r is Ok <==> encode_utf8(s@).len() <= MAX_FIELD_LEN,
        r is Ok ==> final(out)@ == old(out)@ + ser_string(s@),
        r is Err ==> r == Err::<(), SerializeErr>(SerializeErr::LengthTooLarge) && final(out)@
            == old(out)@,
{
    write_bytes(s.as_bytes(), out)
}

/// Reads one byte at `pos`.
pub fn read_u8(data: &[u8], pos: usize) -> (r: Result<(u8, usize), DeserializeErr>)
    ensures
        match spec_read_u8(data@, pos as int) {
            Ok((v, next)) => r matches Ok((rv, rnext)) && rv == v && rnext == next && next
                <= data@.len(),
            Err(e) => r matches Err(re) && re == e,
        },
{
    if pos < data.len() {
        Ok((data[pos], pos + 1))
    } else {
        Err(DeserializeErr::Eof)
    }
}

/// Reads a truth value at `pos`.
pub fn read_bool(data: &[u8], pos: usize) -> (r: Result<(bool, usize), DeserializeErr>)
    ensures
        match spec_read_bool(data@, pos as int) {
            Ok((v, next)) => r matches Ok((rv, rnext)) && rv == v && rnext == next && next
                <= data@.len(),
            Err(e) => r matches Err(re) && re == e,
        },
{
    if pos < data.len() {
        let b: u8 = data[pos];
        if b == 0 {
            Ok((false, pos + 1))
        } else if b == 1 {
            Ok((true, pos + 1))
        } else {
            Err(DeserializeErr::InvalidBool)
        }
    } else {
        Err(DeserializeErr::Eof)
    }
}

/// Reads a number of two bytes at `pos`.
pub fn read_u16(data: &[u8], pos: usize) -> (r: Result<(u16, usize), DeserializeErr>)
    ensures
        match spec_read_u16(data@, pos as int) {
            Ok((v, next)) => r matches Ok((rv, rnext)) && rv == v && rnext == next && next
                <= data@.len(),
            Err(e) => r matches Err(re) && re == e,
        },
{
    if pos <= data.len() && data.len() - pos >= 2 {
        let v: u16 = data[pos] as u16 * 256 + data[pos + 1] as u16;
        Ok((v, pos + 2))
    } else {
        Err(DeserializeErr::Eof)
    }
}

/// Reads a number of eight bytes at `pos`.
pub fn read_u64(data: &[u8], pos: usize) -> (r: Result<(u64, usize), DeserializeErr>)
    ensures
        match spec_read_u64(data@, pos as int) {
            Ok((v, next)) => r matches Ok((rv, rnext)) && rv == v && rnext == next && next
                <= data@.len(),
            Err(e) => r matches Err(re) && re == e,
        },
{
    if pos <= data.len() && data.len() - pos >= 8 {
        let v1: u64 = data[pos] as u64 * 256 + data[pos + 1] as u64;
        let v2: u64 = v1 * 256 + data[pos + 2] as u64;
        let v3: u64 = v2 * 256 + data[pos + 3] as u64;
        let v4: u64 = v3 * 256 + data[pos + 4] as u64;
        let v5: u64 = v4 * 256 + data[pos + 5] as u64;
        let v6: u64 = v5 * 256 + data[pos + 6] as u64;
        let v7: u64 = v6 * 256 + data[pos + 7] as u64;
        Ok((v7, pos + 8))
    } else {
        Err(DeserializeErr::Eof)
    }
}

/// Reads a number of sixteen bytes at `pos`.
pub fn read_u128(data: &[u8], pos: usize) -> (r: Result<(u128, usize), DeserializeErr>)
    ensures
        match spec_read_u128(data@, pos as int) {
            Ok((v, next)) => r matches Ok((rv, rnext)) && rv == v && rnext == next && next
                <= data@.len(),
            Err(e) => r matches Err(re) && re == e,
        },
{
    if pos <= data.len() && data.len() - pos >= 16 {
        let (high, mid) = match read_u64(data, pos) {
            Ok(x) => x,
            Err(e) => { return Err(e); },
        };
        let (low, next) = match read_u64(data, mid) {
            Ok(x) => x,
            Err(e) => { return Err(e); },
        };
        Ok((high as u128 * 0x1_0000_0000_0000_0000 + low as u128, next))
    } else {
        Err(DeserializeErr::Eof)
    }
}

/// Reads a number of one to five bytes at `pos`.
pub fn read_varint(data: &[u8], pos: usize) -> (r: Result<(i32, usize), DeserializeErr>)
    ensures
        match spec_read_varint(data@, pos as int) {
            Ok((v, next)) => r matches Ok((rv, rnext)) && rv == v && rnext == next && next
                <= data@.len(),
            Err(e) => r matches Err(re) && re == e,
        },
{
    if pos > data.len() {
        return Err(DeserializeErr::Eof);
    }
    let tail = vstd::slice::slice_subrange(data, pos, data.len());
    assert(tail@ =~= data@.skip(pos as int));
    match decode_varint(tail) {
        VarIntRead::Value { value, len } => Ok((value as i32, pos + len)),
        VarIntRead::Incomplete => Err(DeserializeErr::Eof),
        VarIntRead::TooLong => Err(DeserializeErr::VarNumTooLong),
    }
}

/// Reads counted bytes at `pos`.
pub fn read_bytes(data: &[u8], pos: usize) -> (r: Result<(Vec<u8>, usize), DeserializeErr>)
    ensures
        match spec_read_bytes(data@, pos as int) {
            Ok((v, next)) => r matches Ok((rv, rnext)) && rv@ == v && rnext == next && next
                <= data@.len(),
            Err(e) => r matches Err(re) && re == e,
        },
{
    let (count, start) = match read_varint(data, pos) {
        Ok(x) => x,
        Err(e) => { return Err(e); },
    };
    if count < 0 {
        return Err(DeserializeErr::NegativeLength);
    }
    let count: usize = count as usize;
    if count > data.len() - start {
        return Err(DeserializeErr::Eof);
    }
    let part = vstd::slice::slice_subrange(data, start, start + count);
    Ok((vstd::slice::slice_to_vec(part), start + count))
}

/// Reads a text at `pos`.
pub fn read_string(data: &[u8], pos: usize) -> (r: Result<(String, usize), DeserializeErr>)
    ensures
        match spec_read_string(data@, pos as int) {
            Ok((v, next)) => r matches Ok((rv, rnext)) && rv@ == v && rnext == next && next
                <= data@.len(),
            Err(e) => r matches Err(re) && re == e,
        },
{
    let (bytes, next) = match read_bytes(data, pos) {
        Ok(x) => x,
        Err(e) => { return Err(e); },
    };
    match string_from_utf8(bytes) {
        Some(s) => Ok((s, next)),
        None => Err(DeserializeErr::BadStringEncoding),
    }
}

/// Reads an optional text at `pos`.
pub fn read_opt_string(data: &[u8], pos: usize) -> (r: Result<
    (Option<String>, usize),
    DeserializeErr,
>)
    ensures
        match spec_read_opt_string(data@, pos as int) {
            Ok((v, next)) => r matches Ok((rv, rnext)) && opt_string_view(rv) == v && rnext == next
                && next <= data@.len(),
            Err(e) => r matches Err(re) && re == e,
        },
{
    let (present, next) = match read_bool(data, pos) {
        Ok(x) => x,
        Err(e) => { return Err(e); },
    };
    if !present {
        return Ok((None, next));
    }
    match read_string(data, next) {
        Ok((s, after)) => Ok((Some(s), after)),
        Err(e) => Err(e),
    }
}

/// The text of an optional string.
pub open spec fn opt_string_view(s: Option<String>) -> Option<Seq<char>> {
    match s {
        Some(t) => Some(t@),
        None => None,
    }
}

// What was written is read back: a field that stands at `pos` of `data` as
// it is written reads as its value, and ends where its bytes end.
/// A truth value that was written reads back.
pub proof fn lemma_read_bool_back(data: Seq<u8>, pos: int, v: bool)
    requires
        0 <= pos < data.len(),
        data.subrange(pos, pos + 1) == ser_bool(v),
    ensures
        spec_read_bool(data, pos) == Ok::<(bool, int), DeserializeErr>((v, pos + 1)),
{
    assert(data[pos] == data.subrange(pos, pos + 1)[0]);
}

/// A byte that was written reads back.
pub proof fn lemma_read_u8_back(data: Seq<u8>, pos: int, v: u8)
    requires
        0 <= pos < data.len(),
        data.subrange(pos, pos + 1) == seq![v],
    ensures
        spec_read_u8(data, pos) == Ok::<(u8, int), DeserializeErr>((v, pos + 1)),
{
    assert(data[pos] == data.subrange(pos, pos + 1)[0]);
}

/// A number of two bytes that was written reads back.
pub proof fn lemma_read_u16_back(data: Seq<u8>, pos: int, v: u16)
    requires
        0 <= pos,
        pos + 2 <= data.len(),
        data.subrange(pos, pos + 2) == ser_u16(v),
    ensures
        spec_read_u16(data, pos) == Ok::<(u16, int), DeserializeErr>((v, pos + 2)),
{
    let part = data.subrange(pos, pos + 2);
    assert(data[pos] == part[0]);
    assert(data[pos + 1] == part[1]);
}

/// Eight bytes written for a number stand for that number.
pub proof fn lemma_be_u64_back(data: Seq<u8>, pos: int, v: u64)
    requires
        0 <= pos,
        pos + 8 <= data.len(),
        data.subrange(pos, pos + 8) == ser_u64(v),
    ensures
        be_u64_at(data, pos) == v,
{
    let part = data.subrange(pos, pos + 8);
    assert(data[pos] == part[0]);
    assert(data[pos + 1] == part[1]);
    assert(data[pos + 2] == part[2]);
    assert(data[pos + 3] == part[3]);
    assert(data[pos + 4] == part[4]);
    assert(data[pos + 5] == part[5]);
    assert(data[pos + 6] == part[6]);
    assert(data[pos + 7] == part[7]);
    let x = v as int;
    let q1 = x / 256;
    let q2 = q1 / 256;
    let q3 = q2 / 256;
    let q4 = q3 / 256;
    let q5 = q4 / 256;
    let q6 = q5 / 256;
    let q7 = q6 / 256;
    assert(q2 == x / 0x1_0000);
    assert(q3 == x / 0x100_0000);
    assert(q4 == x / 0x1_0000_0000);
    assert(q5 == x / 0x100_0000_0000);
    assert(q6 == x / 0x1_0000_0000_0000);
    assert(q7 == x / 0x100_0000_0000_0000);
    assert(q7 < 256);
}

/// A number of eight bytes that was written reads back.
pub proof fn lemma_read_u64_back(data: Seq<u8>, pos: int, v: u64)
    requires
        0 <= pos,
        pos + 8 <= data.len(),
        data.subrange(pos, pos + 8) == ser_u64(v),
    ensures
        spec_read_u64(data, pos) == Ok::<(u64, int), DeserializeErr>((v, pos + 8)),
{
    lemma_be_u64_back(data, pos, v);
}

/// A number of sixteen bytes that was written reads back.
pub proof fn lemma_read_u128_back(data: Seq<u8>, pos: int, v: u128)
    requires
        0 <= pos,
        pos + 16 <= data.len(),
        data.subrange(pos, pos + 16) == ser_u128(v),
    ensures
        spec_read_u128(data, pos) == Ok::<(u128, int), DeserializeErr>((v, pos + 16)),
{
    let high = (v / 0x1_0000_0000_0000_0000) as u64;
    let low = (v % 0x1_0000_0000_0000_0000) as u64;
    let part = data.subrange(pos, pos + 16);
    assert(ser_u64(high).len() == 8 && ser_u64(low).len() == 8);
    assert(data.subrange(pos, pos + 8) =~= part.subrange(0, 8));
    assert(data.subrange(pos + 8, pos + 16) =~= part.subrange(8, 16));
    assert(part.subrange(0, 8) =~= ser_u64(high));
    assert(part.subrange(8, 16) =~= ser_u64(low));
    lemma_be_u64_back(data, pos, high);
    lemma_be_u64_back(data, pos + 8, low);
}

/// A number of one to five bytes that was written reads back.
pub proof fn lemma_read_varint_back(data: Seq<u8>, pos: int, v: i32)
    requires
        0 <= pos,
        pos + ser_varint(v).len() <= data.len(),
        data.subrange(pos, pos + ser_varint(v).len()) == ser_varint(v),
    ensures
        spec_read_varint(data, pos) == Ok::<(i32, int), DeserializeErr>(
            (v, pos + ser_varint(v).len()),
        ),
        1 <= ser_varint(v).len() <= 5,
{
    let len = ser_varint(v).len() as int;
    let rest = data.skip(pos + len);
    assert(data.skip(pos) =~= ser_varint(v) + rest);
    lemma_varint_round_trip(v as u32, rest);
    assert((v as u32) as i32 == v) by (bit_vector);
    assert(len == encoded_len(v as u32));
}

/// Counted bytes that were written read back.
pub proof fn lemma_read_bytes_back(data: Seq<u8>, pos: int, v: Seq<u8>)
    requires
        0 <= pos,
        v.len() <= MAX_FIELD_LEN,
        pos + ser_bytes(v).len() <= data.len(),
        data.subrange(pos, pos + ser_bytes(v).len()) == ser_bytes(v),
    ensures
        spec_read_bytes(data, pos) == Ok::<(Seq<u8>, int), DeserializeErr>(
            (v, pos + ser_bytes(v).len()),
        ),
{
    let count = v.len() as i32;
    let head = ser_varint(count);
    let whole = data.subrange(pos, pos + ser_bytes(v).len());
    assert(count as u32 == v.len() as u32);
    assert(ser_bytes(v) == head + v);
    assert(data.subrange(pos, pos + head.len()) =~= whole.subrange(0, head.len() as int));
    assert(whole.subrange(0, head.len() as int) =~= head);
    lemma_read_varint_back(data, pos, count);
    let start = pos + head.len();
    assert(data.subrange(start, start + count) =~= whole.subrange(
        head.len() as int,
        head.len() + count,
    ));
    assert(whole.subrange(head.len() as int, head.len() + count) =~= v);
}

/// A text that was written reads back.
pub proof fn lemma_read_string_back(data: Seq<u8>, pos: int, v: Seq<char>)
    requires
        0 <= pos,
        encode_utf8(v).len() <= MAX_FIELD_LEN,
        pos + ser_string(v).len() <= data.len(),
        data.subrange(pos, pos + ser_string(v).len()) == ser_string(v),
    ensures
        spec_read_string(data, pos) == Ok::<(Seq<char>, int), DeserializeErr>(
            (v, pos + ser_string(v).len()),
        ),
{
    lemma_read_bytes_back(data, pos, encode_utf8(v));
    vstd::utf8::encode_utf8_valid_utf8(v);
    vstd::utf8::encode_utf8_decode_utf8(v);
}

} // verus!
