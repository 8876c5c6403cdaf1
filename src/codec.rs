use vstd::prelude::*;
use vstd::utf8::{decode_utf8, encode_utf8, valid_utf8};

use crate::error::{Error, ErrorView, Parsed};

verus! {

broadcast use vstd::utf8::encode_utf8_valid_utf8, vstd::utf8::encode_utf8_decode_utf8;

/// The largest value of the remaining-length field.
pub const MAX_REMAINING_LENGTH: usize = 268_435_455;

/// An executable decoding result `r`, reached from position `pos`, agrees with
/// the mathematical outcome `p` of decoding what lies from `pos` on.
pub open spec fn tracks<T: View>(r: Result<(T, usize), Error>, p: Parsed<T::V>, pos: usize) -> bool {
    match r {
        Ok((v, q)) => p is Ok && v@ == p->Ok_0.0 && q == pos + p->Ok_0.1,
        Err(e) => p is Err && e@ == p->Err_0,
    }
}

/// The region `[pos, end)` of `data`, as the spec functions see it.
pub open spec fn region(data: Seq<u8>, pos: usize, end: usize) -> Seq<u8> {
    data.subrange(pos as int, end as int)
}

pub open spec fn spec_u8(s: Seq<u8>) -> Parsed<u8> {
    if s.len() >= 1 {
        Ok((s[0], 1))
    } else {
        Err(ErrorView::PacketTooShort)
    }
}

/// A big-endian two-octet integer.
pub open spec fn be16(hi: u8, lo: u8) -> u16 {
    (hi as int * 256 + lo as int) as u16
}

pub open spec fn spec_u16(s: Seq<u8>) -> Parsed<u16> {
    if s.len() >= 2 {
        Ok((be16(s[0], s[1]), 2))
    } else {
        Err(ErrorView::PacketTooShort)
    }
}

/// A big-endian four-octet integer.
pub open spec fn be32(a: u8, b: u8, c: u8, d: u8) -> u32 {
    (((a as int * 256 + b as int) * 256 + c as int) * 256 + d as int) as u32
}

pub open spec fn spec_u32(s: Seq<u8>) -> Parsed<u32> {
    if s.len() >= 4 {
        Ok((be32(s[0], s[1], s[2], s[3]), 4))
    } else {
        Err(ErrorView::PacketTooShort)
    }
}

pub open spec fn u16_bytes(v: u16) -> Seq<u8> {
    seq![(v / 256) as u8, (v % 256) as u8]
}

pub open spec fn u32_bytes(v: u32) -> Seq<u8> {
    seq![(v / 16777216) as u8, (v / 65536 % 256) as u8, (v / 256 % 256) as u8, (v % 256) as u8]
}

/// A length-prefixed byte blob at the front of `s`.
pub open spec fn spec_binary(s: Seq<u8>) -> Parsed<Seq<u8>> {
    match spec_u16(s) {
        Ok((len, _)) => if 2 + len <= s.len() {
            Ok((s.subrange(2, 2 + len), 2 + len))
        } else {
            Err(ErrorView::PacketTooShort)
        },
        Err(e) => Err(e),
    }
}

/// A length-prefixed UTF-8 string at the front of `s`.
pub open spec fn spec_string(s: Seq<u8>) -> Parsed<Seq<char>> {
    match spec_binary(s) {
        Ok((b, n)) => if valid_utf8(b) {
            Ok((decode_utf8(b), n))
        } else {
            Err(ErrorView::NotUtf8)
        },
        Err(e) => Err(e),
    }
}

/// A key-value pair of strings at the front of `s`.
pub open spec fn spec_pair(s: Seq<u8>) -> Parsed<(Seq<char>, Seq<char>)> {
    match spec_string(s) {
        Ok((k, n)) => match spec_string(s.skip(n)) {
            Ok((v, m)) => Ok(((k, v), n + m)),
            Err(e) => Err(e),
        },
        Err(e) => Err(e),
    }
}

pub open spec fn binary_bytes(b: Seq<u8>) -> Seq<u8> {
    u16_bytes(b.len() as u16) + b
}

pub open spec fn string_bytes(c: Seq<char>) -> Seq<u8> {
    binary_bytes(encode_utf8(c))
}

pub open spec fn string_fits(c: Seq<char>) -> bool {
    encode_utf8(c).len() <= 65535
}

pub open spec fn pow128(k: nat) -> nat
    decreases k,
{
    if k == 0 {
        1
    } else {
        128 * pow128((k - 1) as nat)
    }
}

/// A variable-length integer at the front of `s`, of at most `budget` bytes:
/// little-endian base 128, the high bit of each byte telling that another follows.
pub open spec fn spec_varint(s: Seq<u8>, budget: nat) -> Option<(nat, nat)>
    decreases budget,
{
    if budget == 0 || s.len() == 0 {
        None
    } else if s[0] < 128 {
        Some((s[0] as nat, 1))
    } else {
        match spec_varint(s.drop_first(), (budget - 1) as nat) {
            Some((v, n)) => Some(((s[0] - 128) as nat + 128 * v, n + 1)),
            None => None,
        }
    }
}

/// The remaining-length field at the front of `s`: one to four bytes.
pub open spec fn spec_length(s: Seq<u8>) -> Parsed<nat> {
    match spec_varint(s, 4) {
        Some((v, n)) => Ok((v, n as int)),
        None => Err(ErrorView::InputTooShort),
    }
}

/// The shortest encoding of `n` as a variable-length integer.
pub open spec fn varint_bytes(n: nat) -> Seq<u8>
    decreases n,
{
    if n < 128 {
        seq![n as u8]
    } else {
        seq![(n % 128 + 128) as u8] + varint_bytes(n / 128)
    }
}

pub proof fn lemma_pow128_bounds()
    ensures
        pow128(0) == 1,
        pow128(1) == 128,
        pow128(2) == 16384,
        pow128(3) == 2097152,
        pow128(4) == 268435456,
{
    reveal_with_fuel(pow128, 5);
}

/// A value below `128^k` takes at most `k` bytes, and decodes back from them
/// whatever follows.
pub proof fn lemma_varint_round_trip(n: nat, k: nat, rest: Seq<u8>)
    requires
        1 <= k,
        n < pow128(k),
    ensures
        1 <= varint_bytes(n).len() <= k,
        spec_varint(varint_bytes(n) + rest, k) == Some((n, varint_bytes(n).len())),
    decreases n,
{
    let s = varint_bytes(n) + rest;
    if n < 128 {
        assert(s[0] == n as u8);
    } else {
        let m = n / 128;
        assert(m < pow128((k - 1) as nat)) by (nonlinear_arith)
            requires
                n < pow128(k),
                pow128(k) == 128 * pow128((k - 1) as nat),
                m == n / 128,
        ;
        assert(k >= 2) by {
            if k == 1 {
                assert(pow128(0) == 1);
            }
        }
        lemma_varint_round_trip(m, (k - 1) as nat, rest);
        assert(s.drop_first() =~= varint_bytes(m) + rest);
        assert(s[0] == (n % 128 + 128) as u8);
        assert(n == n % 128 + 128 * m) by (nonlinear_arith)
            requires
                m == n / 128,
        ;
    }
}

/// Of four bytes that all announce another, none finishes a length.
pub proof fn lemma_varint_four_continuations(s: Seq<u8>)
    requires
        s.len() >= 4,
        forall|i: int| 0 <= i < 4 ==> s[i] >= 128,
    ensures
        spec_length(s) == Parsed::<nat>::Err(ErrorView::InputTooShort),
{
    reveal_with_fuel(spec_varint, 5);
    assert(s.drop_first()[0] == s[1]);
    assert(s.drop_first().drop_first()[0] == s[2]);
    assert(s.drop_first().drop_first().drop_first()[0] == s[3]);
}

pub fn get_u8(data: &[u8], pos: usize, end: usize) -> (r: Result<(u8, usize), Error>)
    requires
        pos <= end <= data@.len(),
    ensures
        tracks(r, spec_u8(region(data@, pos, end)), pos),
{
    if end - pos < 1 {
        return Err(Error::PacketTooShort);
    }
    Ok((data[pos], pos + 1))
}

pub fn get_u16(data: &[u8], pos: usize, end: usize) -> (r: Result<(u16, usize), Error>)
    requires
        pos <= end <= data@.len(),
    ensures
        tracks(r, spec_u16(region(data@, pos, end)), pos),
{
    if end - pos < 2 {
        return Err(Error::PacketTooShort);
    }
    let v = (data[pos] as u16) * 256 + data[pos + 1] as u16;
    Ok((v, pos + 2))
}

pub fn get_u32(data: &[u8], pos: usize, end: usize) -> (r: Result<(u32, usize), Error>)
    requires
        pos <= end <= data@.len(),
    ensures
        tracks(r, spec_u32(region(data@, pos, end)), pos),
{
    if end - pos < 4 {
        return Err(Error::PacketTooShort);
    }
    let v = (((data[pos] as u32) * 256 + data[pos + 1] as u32) * 256 + data[pos + 2] as u32) * 256
        + data[pos + 3] as u32;
    Ok((v, pos + 4))
}

pub fn put_u16(out: &mut Vec<u8>, v: u16)
    ensures
        final(out)@ == old(out)@ + u16_bytes(v),
{
    out.push((v / 256) as u8);
    out.push((v % 256) as u8);
    assert(final(out)@ =~= old(out)@ + u16_bytes(v));
}

pub fn put_u32(out: &mut Vec<u8>, v: u32)
    ensures
        final(out)@ == old(out)@ + u32_bytes(v),
{
    out.push((v / 16777216) as u8);
    out.push((v / 65536 % 256) as u8);
    out.push((v / 256 % 256) as u8);
    out.push((v % 256) as u8);
    assert(final(out)@ =~= old(out)@ + u32_bytes(v));
}

/// Appends `bytes` to `out`.
pub fn put_slice(out: &mut Vec<u8>, bytes: &[u8])
    ensures
        final(out)@ == old(out)@ + bytes@,
{
    let mut i: usize = 0;
    while i < bytes.len()
        invariant
            i <= bytes@.len(),
            out@ == old(out)@ + bytes@.subrange(0, i as int),
        decreases bytes@.len() - i,
    {
        out.push(bytes[i]);
        i = i + 1;
        assert(out@ =~= old(out)@ + bytes@.subrange(0, i as int));
    }
    assert(bytes@.subrange(0, i as int) =~= bytes@);
}

/// Relies on `String::from_utf8`: it succeeds exactly when the bytes are valid
/// UTF-8, and the string then holds the characters they encode.
#[verifier::external_body]
pub(crate) fn utf8_to_string(bytes: Vec<u8>) -> (r: Option<String>)
    ensures
        match r {
            Some(s) => valid_utf8(bytes@) && s@ == decode_utf8(bytes@),
            None => !valid_utf8(bytes@),
        },
{
    String::from_utf8(bytes).ok()
}

fn varint_at(data: &[u8], pos: usize, end: usize, budget: usize) -> (r: Option<(usize, usize)>)
    requires
        pos <= end <= data@.len(),
        budget <= 4,
    ensures
        match r {
            Some((v, q)) => {
                &&& spec_varint(region(data@, pos, end), budget as nat) == Some(
                    (v as nat, (q - pos) as nat),
                )
                &&& v < pow128(budget as nat)
                &&& pos < q <= end
            },
            None => spec_varint(region(data@, pos, end), budget as nat) is None,
        },
    decreases budget,
{
    if budget == 0 || pos >= end {
        return None;
    }
    let b = data[pos];
    if b < 128 {
        proof {
            lemma_pow128_bounds();
            assert(pow128(budget as nat) >= 128) by {
                assert(pow128((budget - 1) as nat) >= 1) by {
                    if budget == 1 {} else if budget == 2 {} else if budget == 3 {} else {}
                }
            }
        }
        return Some((b as usize, pos + 1));
    }
    let inner = varint_at(data, pos + 1, end, budget - 1);
    match inner {
        Some((v, q)) => {
            proof {
                lemma_pow128_bounds();
                let p = pow128((budget - 1) as nat);
                assert(p <= 2097152) by {
                    if budget == 1 {} else if budget == 2 {} else if budget == 3 {} else {}
                }
                assert(region(data@, pos, end).drop_first() =~= region(data@, (pos + 1) as usize, end));
                assert((b - 128) as nat + 128 * v < 128 * p) by (nonlinear_arith)
                    requires
                        v < p,
                        b < 256,
                        b >= 128,
                ;
            }
            Some(((b - 128) as usize + 128 * v, q))
        },
        None => {
            assert(region(data@, pos, end).drop_first() =~= region(data@, (pos + 1) as usize, end));
            None
        },
    }
}

/// The remaining-length field that starts at `pos`, read no further than `end`:
/// its value and the position just after it.
pub fn length_at(data: &[u8], pos: usize, end: usize) -> (r: Result<(usize, usize), Error>)
    requires
        pos <= end <= data@.len(),
    ensures
        match r {
            Ok((v, q)) => spec_length(region(data@, pos, end)) == Parsed::<nat>::Ok(
                (v as nat, q - pos),
            ) && v <= MAX_REMAINING_LENGTH && pos < q <= end,
            Err(e) => spec_length(region(data@, pos, end)) is Err && e@
                == ErrorView::InputTooShort,
        },
{
    match varint_at(data, pos, end, 4) {
        Some((v, q)) => {
            proof {
                lemma_pow128_bounds();
            }
            Ok((v, q))
        },
        None => Err(Error::InputTooShort),
    }
}

/// Reads the remaining-length field at the front of `data`: its value and the
/// number of bytes it took. Fails with `InputTooShort` when `data` ends before
/// the field does, or when a fourth byte still announces another.
pub fn read_length(data: &[u8]) -> (r: Result<(usize, usize), Error>)
    ensures
        match r {
            Ok((v, n)) => spec_length(data@) == Parsed::<nat>::Ok((v as nat, n as int)) && v
                <= MAX_REMAINING_LENGTH && 1 <= n <= 4,
            Err(e) => spec_length(data@) is Err && e@ == ErrorView::InputTooShort,
        },
{
    let r = length_at(data, 0, data.len());
    assert(region(data@, 0, data@.len() as usize) =~= data@);
    proof {
        if r is Ok {
            lemma_varint_count(data@);
        }
    }
    r
}

/// A decoded length never takes more than four bytes.
pub proof fn lemma_varint_count(s: Seq<u8>)
    requires
        spec_varint(s, 4) is Some,
    ensures
        1 <= spec_varint(s, 4)->Some_0.1 <= 4,
{
    reveal_with_fuel(spec_varint, 5);
}

fn push_varint(out: &mut Vec<u8>, n: usize)
    ensures
        final(out)@ == old(out)@ + varint_bytes(n as nat),
    decreases n,
{
    if n < 128 {
        out.push(n as u8);
        assert(final(out)@ =~= old(out)@ + varint_bytes(n as nat));
    } else {
        out.push((n % 128 + 128) as u8);
        let ghost mid = out@;
        push_varint(out, n / 128);
        assert(final(out)@ =~= old(out)@ + varint_bytes(n as nat));
    }
}

/// Appends the shortest encoding of `len` as a remaining-length field, or fails
/// with `PayloadTooLong`, writing nothing, when `len` exceeds 268,435,455.
pub fn write_length(out: &mut Vec<u8>, len: usize) -> (r: Result<(), Error>)
    ensures
        len <= MAX_REMAINING_LENGTH ==> r is Ok && final(out)@ == old(out)@ + varint_bytes(
            len as nat,
        ),
        len > MAX_REMAINING_LENGTH ==> r is Err && r->Err_0@ == ErrorView::PayloadTooLong
            && final(out)@ == old(out)@,
{
    if len > MAX_REMAINING_LENGTH {
        return Err(Error::PayloadTooLong);
    }
    push_varint(out, len);
    Ok(())
}

/// Reads a length-prefixed byte blob starting at `pos`.
pub fn read_binary(data: &[u8], pos: usize, end: usize) -> (r: Result<(Vec<u8>, usize), Error>)
    requires
        pos <= end <= data@.len(),
    ensures
        tracks(r, spec_binary(region(data@, pos, end)), pos),
{
    let (len, p) = get_u16(data, pos, end)?;
    let len = len as usize;
    if end - p < len {
        return Err(Error::PacketTooShort);
    }
    let bytes = vstd::slice::slice_to_vec(&data[p..p + len]);
    assert(bytes@ =~= region(data@, pos, end).subrange(2, 2 + len));
    Ok((bytes, p + len))
}

/// Reads a length-prefixed UTF-8 string starting at `pos`.
pub fn read_string(data: &[u8], pos: usize, end: usize) -> (r: Result<(String, usize), Error>)
    requires
        pos <= end <= data@.len(),
    ensures
        tracks(r, spec_string(region(data@, pos, end)), pos),
{
    let (bytes, p) = read_binary(data, pos, end)?;
    match utf8_to_string(bytes) {
        Some(s) => Ok((s, p)),
        None => Err(Error::NotUtf8),
    }
}

/// Reads a key and a value, two length-prefixed strings, starting at `pos`.
pub fn read_pair(data: &[u8], pos: usize, end: usize) -> (r: Result<((String, String), usize), Error>)
    requires
        pos <= end <= data@.len(),
    ensures
        tracks(r, spec_pair(region(data@, pos, end)), pos),
{
    let (k, p) = read_string(data, pos, end)?;
    assert(region(data@, pos, end).skip(p - pos) =~= region(data@, p, end));
    let (v, q) = read_string(data, p, end)?;
    Ok(((k, v), q))
}

/// Appends a length-prefixed byte blob, or fails with `PayloadTooLong`, writing
/// nothing, when `bytes` is longer than 65,535.
pub fn write_binary(out: &mut Vec<u8>, bytes: &[u8]) -> (r: Result<(), Error>)
    ensures
        bytes@.len() <= 65535 ==> r is Ok && final(out)@ == old(out)@ + binary_bytes(bytes@),
        bytes@.len() > 65535 ==> r is Err && r->Err_0@ == ErrorView::PayloadTooLong
            && final(out)@ == old(out)@,
{
    if bytes.len() > 65535 {
        return Err(Error::PayloadTooLong);
    }
    put_u16(out, bytes.len() as u16);
    put_slice(out, bytes);
    assert(final(out)@ =~= old(out)@ + binary_bytes(bytes@));
    Ok(())
}

/// Appends a length-prefixed UTF-8 string, or fails with `PayloadTooLong`,
/// writing nothing, when its encoding is longer than 65,535 bytes.
pub fn write_string(out: &mut Vec<u8>, s: &str) -> (r: Result<(), Error>)
    ensures
        string_fits(s@) ==> r is Ok && final(out)@ == old(out)@ + string_bytes(s@),
        !string_fits(s@) ==> r is Err && r->Err_0@ == ErrorView::PayloadTooLong
            && final(out)@ == old(out)@,
{
    write_binary(out, s.as_bytes())
}

pub proof fn lemma_u16_round_trip(v: u16, rest: Seq<u8>)
    ensures
        spec_u16(u16_bytes(v) + rest) == Parsed::<u16>::Ok((v, 2)),
{
    let s = u16_bytes(v) + rest;
    assert(s[0] == (v / 256) as u8 && s[1] == (v % 256) as u8);
}

pub proof fn lemma_u32_round_trip(v: u32, rest: Seq<u8>)
    ensures
        spec_u32(u32_bytes(v) + rest) == Parsed::<u32>::Ok((v, 4)),
{
    let s = u32_bytes(v) + rest;
    assert(s[0] == (v / 16777216) as u8 && s[1] == (v / 65536 % 256) as u8 && s[2] == (v / 256
        % 256) as u8 && s[3] == (v % 256) as u8);
}

pub proof fn lemma_binary_round_trip(b: Seq<u8>, rest: Seq<u8>)
    requires
        b.len() <= 65535,
    ensures
        spec_binary(binary_bytes(b) + rest) == Parsed::<Seq<u8>>::Ok((b, 2 + b.len() as int)),
{
    let s = binary_bytes(b) + rest;
    lemma_u16_round_trip(b.len() as u16, b + rest);
    assert(s =~= u16_bytes(b.len() as u16) + (b + rest));
    assert(s.subrange(2, 2 + b.len() as int) =~= b);
}

pub proof fn lemma_string_round_trip(c: Seq<char>, rest: Seq<u8>)
    requires
        string_fits(c),
    ensures
        spec_string(string_bytes(c) + rest) == Parsed::<Seq<char>>::Ok(
            (c, 2 + encode_utf8(c).len() as int),
        ),
{
    lemma_binary_round_trip(encode_utf8(c), rest);
}

/// A whole packet: the fixed header's first byte, the remaining length, the body.
pub open spec fn frame_bytes(first: u8, body: Seq<u8>) -> Seq<u8> {
    seq![first] + varint_bytes(body.len()) + body
}

/// Appends a whole packet around `body`, or fails with `PayloadTooLong`,
/// writing nothing, when the body is longer than 268,435,455 bytes.
pub fn write_frame(out: &mut Vec<u8>, first: u8, body: &[u8]) -> (r: Result<(), Error>)
    ensures
        body@.len() <= MAX_REMAINING_LENGTH ==> r is Ok && final(out)@ == old(out)@ + frame_bytes(
            first,
            body@,
        ),
        body@.len() > MAX_REMAINING_LENGTH ==> r is Err && r->Err_0@ == ErrorView::PayloadTooLong
            && final(out)@ == old(out)@,
{
    if body.len() > MAX_REMAINING_LENGTH {
        return Err(Error::PayloadTooLong);
    }
    out.push(first);
    let r = write_length(out, body.len());
    put_slice(out, body);
    assert(final(out)@ =~= old(out)@ + frame_bytes(first, body@));
    r
}

/// A strict prefix of an encoded length never finishes one.
pub proof fn lemma_varint_strict_prefix(n: nat, m: int, k: nat)
    requires
        0 <= m < varint_bytes(n).len(),
    ensures
        spec_varint(varint_bytes(n).take(m), k) is None,
    decreases n,
{
    let p = varint_bytes(n).take(m);
    if m == 0 || k == 0 {
    } else {
        assert(n >= 128);
        assert(p[0] == (n % 128 + 128) as u8);
        assert(p.drop_first() =~= varint_bytes(n / 128).take(m - 1));
        lemma_varint_strict_prefix(n / 128, m - 1, (k - 1) as nat);
    }
}

} // verus!
