//! The wire format of a telemetry record.
//!
//! A record travels as its five fields in declaration order. Every field
//! starts with a presence byte: `0` for an unknown field, `1` for a known one.
//! A known binary32 field follows as its four bytes, least significant first.
//! A known time follows zigzag-mapped to an unsigned number and written as a
//! varint: seven bits per byte, least significant group first, the top bit of
//! a byte set when another byte follows. This is the layout that `postcard`
//! gives a struct of five `Option`s, so frames are exchangeable with nodes
//! that serialize the record through `serde`.
//!
//! A record takes between 5 and 26 bytes. Whatever follows the record in a
//! buffer is padding and is ignored by [`decode`].

use crate::state::State;
use vstd::prelude::*;

verus! {

/// The longest encoding any record can have.
pub const MAX_ENCODED_LEN: usize = 26;

/// The destination of [`encode`] is shorter than the encoding.
#[derive(Clone, Copy, Debug, PartialEq, Eq, Structural)]
pub struct EncodeOverflow {
    /// Bytes the record needs.
    pub needed: usize,
    /// Bytes the destination offers.
    pub available: usize,
}

/// Why a byte string is not the encoding of a record.
#[derive(Clone, Copy, Debug, PartialEq, Eq, Structural)]
pub enum DecodeError {
    /// The bytes end before the record does.
    UnexpectedEnd,
    /// A presence byte is neither `0` nor `1`.
    BadOption,
    /// A varint runs over five bytes or over 32 bits.
    BadVarint,
}

// ---------------------------------------------------------------------------
// What the bytes of a record are
// ---------------------------------------------------------------------------

/// The four bytes of a 32-bit pattern, least significant first.
pub open spec fn le_bytes(bits: u32) -> Seq<u8> {
    seq![
        (bits % 256) as u8,
        (bits / 256 % 256) as u8,
        (bits / 65536 % 256) as u8,
        (bits / 16777216) as u8,
    ]
}

/// The 32-bit pattern whose bytes, least significant first, are `b`.
pub open spec fn from_le_bytes(b: Seq<u8>) -> u32
    recommends
        b.len() == 4,
{
    (b[0] + 256 * b[1] + 65536 * b[2] + 16777216 * b[3]) as u32
}

/// Zigzag mapping: 0, -1, 1, -2, 2, ... become 0, 1, 2, 3, 4, ...
pub open spec fn zigzag(v: i32) -> u32 {
    if v >= 0 {
        (2 * v) as u32
    } else {
        (-2 * v - 1) as u32
    }
}

/// The inverse of [`zigzag`].
pub open spec fn unzigzag(z: u32) -> i32 {
    if z % 2 == 0 {
        (z / 2) as i32
    } else {
        (-(z / 2) - 1) as i32
    }
}

/// The varint of `n`: its base-128 digits, least significant first, each but
/// the last with 128 added.
pub open spec fn varint(n: u32) -> Seq<u8>
    decreases n,
{
    if n < 128 {
        seq![n as u8]
    } else {
        seq![(n % 128 + 128) as u8] + varint(n / 128)
    }
}

/// The bytes of a binary32 field.
pub open spec fn float_field(f: Option<u32>) -> Seq<u8> {
    match f {
        None => seq![0u8],
        Some(bits) => seq![1u8] + le_bytes(bits),
    }
}

/// The bytes of the time field.
pub open spec fn time_field(t: Option<i32>) -> Seq<u8> {
    match t {
        None => seq![0u8],
        Some(v) => seq![1u8] + varint(zigzag(v)),
    }
}

/// The encoding of a record.
pub open spec fn wire(r: State) -> Seq<u8> {
    float_field(r.ln) + float_field(r.lt) + float_field(r.ga) + float_field(r.aaa) + time_field(
        r.t,
    )
}

/// `held` with `data` written over it from index `at` on.
pub open spec fn overlaid(held: Seq<u8>, at: int, data: Seq<u8>) -> Seq<u8>
    recommends
        0 <= at,
        at + data.len() <= held.len(),
{
    held.subrange(0, at) + data + held.subrange(at + data.len(), held.len() as int)
}

// ---------------------------------------------------------------------------
// What record a byte string holds
// ---------------------------------------------------------------------------

/// Reads a varint that starts at `s[at]`, of which `depth` bytes were read
/// before. Gives the number and the index after its last byte.
pub open spec fn read_varint(s: Seq<u8>, at: int, depth: nat) -> Result<(u32, int), DecodeError>
    decreases 5 - depth,
{
    if depth >= 5 {
        Err(DecodeError::BadVarint)
    } else if at >= s.len() {
        Err(DecodeError::UnexpectedEnd)
    } else if s[at] < 128 {
        if depth == 4 && s[at] > 15 {
            Err(DecodeError::BadVarint)
        } else {
            Ok((s[at] as u32, at + 1))
        }
    } else {
        match read_varint(s, at + 1, depth + 1) {
            Ok((rest, end)) => Ok(((s[at] - 128 + 128 * rest) as u32, end)),
            Err(e) => Err(e),
        }
    }
}

/// Reads a binary32 field that starts at `s[at]`. Gives the field and the
/// index after its last byte.
pub open spec fn read_float(s: Seq<u8>, at: int) -> Result<(Option<u32>, int), DecodeError> {
    if at >= s.len() {
        Err(DecodeError::UnexpectedEnd)
    } else if s[at] == 0 {
        Ok((None, at + 1))
    } else if s[at] == 1 {
        if at + 5 > s.len() {
            Err(DecodeError::UnexpectedEnd)
        } else {
            Ok((Some(from_le_bytes(s.subrange(at + 1, at + 5))), at + 5))
        }
    } else {
        Err(DecodeError::BadOption)
    }
}

/// Reads the time field that starts at `s[at]`. Gives the field and the index
/// after its last byte.
pub open spec fn read_time(s: Seq<u8>, at: int) -> Result<(Option<i32>, int), DecodeError> {
    if at >= s.len() {
        Err(DecodeError::UnexpectedEnd)
    } else if s[at] == 0 {
        Ok((None, at + 1))
    } else if s[at] == 1 {
        match read_varint(s, at + 1, 0) {
            Ok((z, end)) => Ok((Some(unzigzag(z)), end)),
            Err(e) => Err(e),
        }
    } else {
        Err(DecodeError::BadOption)
    }
}

/// The record that starts at `s[0]`, or the reason why there is none. Bytes
/// after the record play no part.
pub open spec fn parse(s: Seq<u8>) -> Result<State, DecodeError> {
    match read_float(s, 0) {
        Err(e) => Err(e),
        Ok((ln, a1)) => match read_float(s, a1) {
            Err(e) => Err(e),
            Ok((lt, a2)) => match read_float(s, a2) {
                Err(e) => Err(e),
                Ok((ga, a3)) => match read_float(s, a3) {
                    Err(e) => Err(e),
                    Ok((aaa, a4)) => match read_time(s, a4) {
                        Err(e) => Err(e),
                        Ok((t, _)) => Ok(State { ln, lt, ga, aaa, t }),
                    },
                },
            },
        },
    }
}

// ---------------------------------------------------------------------------
// Laws of the format
// ---------------------------------------------------------------------------

/// The largest number plus one that a varint may still hold once `depth` of
/// its bytes are read.
pub open spec fn varint_room(depth: nat) -> int {
    if depth == 0 {
        4294967296
    } else if depth == 1 {
        33554432
    } else if depth == 2 {
        262144
    } else if depth == 3 {
        2048
    } else if depth == 4 {
        16
    } else {
        0
    }
}

/// Four bytes read back give the pattern they were made from.
pub proof fn lemma_le_bytes_round_trip(bits: u32)
    ensures
        le_bytes(bits).len() == 4,
        from_le_bytes(le_bytes(bits)) == bits,
{
}

/// Zigzag loses nothing: mapping back gives the number mapped.
pub proof fn lemma_zigzag_round_trip(v: i32)
    ensures
        unzigzag(zigzag(v)) == v,
{
}

/// A varint has between one and five bytes; how many depends on the size of
/// the number alone.
pub proof fn lemma_varint_len(n: u32)
    ensures
        varint(n).len() == if n < 128 {
            1int
        } else if n < 16384 {
            2int
        } else if n < 2097152 {
            3int
        } else if n < 268435456 {
            4int
        } else {
            5int
        },
{
    reveal_with_fuel(varint, 5);
}

/// A varint that stands in `s` at `at` is read back as the number it was made
/// from, and reading stops right after it.
pub proof fn lemma_read_varint_of_varint(s: Seq<u8>, at: int, depth: nat, n: u32)
    requires
        0 <= at,
        at + varint(n).len() <= s.len(),
        s.subrange(at, at + varint(n).len()) == varint(n),
        n < varint_room(depth),
    ensures
        read_varint(s, at, depth) == Ok::<(u32, int), DecodeError>((n, at + varint(n).len())),
    decreases n,
{
    let image = varint(n);
    assert(s[at] == image[0]) by {
        assert(s.subrange(at, at + image.len())[0] == s[at]);
    }
    if n >= 128 {
        let rest = varint(n / 128);
        assert(image.len() == 1 + rest.len());
        assert(s.subrange(at + 1, at + 1 + rest.len()) =~= rest) by {
            assert forall|i: int| 0 <= i < rest.len() implies s[at + 1 + i] == rest[i] by {
                assert(image[i + 1] == rest[i]);
            }
        }
        lemma_read_varint_of_varint(s, at + 1, depth + 1, n / 128);
    }
}

/// A binary32 field that stands in `s` at `at` is read back unchanged.
pub proof fn lemma_read_float_of_field(s: Seq<u8>, at: int, f: Option<u32>)
    requires
        0 <= at,
        at + float_field(f).len() <= s.len(),
        s.subrange(at, at + float_field(f).len()) == float_field(f),
    ensures
        read_float(s, at) == Ok::<(Option<u32>, int), DecodeError>((f, at + float_field(f).len())),
{
    let image = float_field(f);
    assert(s.subrange(at, at + image.len())[0] == s[at]);
    match f {
        None => {},
        Some(bits) => {
            lemma_le_bytes_round_trip(bits);
            assert(s.subrange(at + 1, at + 5) =~= le_bytes(bits)) by {
                assert forall|i: int| 0 <= i < 4 implies s[at + 1 + i] == le_bytes(bits)[i] by {
                    assert(image[i + 1] == le_bytes(bits)[i]);
                }
            }
        },
    }
}

/// A time field that stands in `s` at `at` is read back unchanged.
pub proof fn lemma_read_time_of_field(s: Seq<u8>, at: int, t: Option<i32>)
    requires
        0 <= at,
        at + time_field(t).len() <= s.len(),
        s.subrange(at, at + time_field(t).len()) == time_field(t),
    ensures
        read_time(s, at) == Ok::<(Option<i32>, int), DecodeError>((t, at + time_field(t).len())),
{
    let image = time_field(t);
    assert(s.subrange(at, at + image.len())[0] == s[at]);
    match t {
        None => {},
        Some(v) => {
            let digits = varint(zigzag(v));
            lemma_zigzag_round_trip(v);
            assert(s.subrange(at + 1, at + 1 + digits.len()) =~= digits) by {
                assert forall|i: int| 0 <= i < digits.len() implies s[at + 1 + i] == digits[i] by {
                    assert(image[i + 1] == digits[i]);
                }
            }
            lemma_read_varint_of_varint(s, at + 1, 0, zigzag(v));
        },
    }
}

/// Every record takes at least 5 and at most [`MAX_ENCODED_LEN`] bytes.
pub proof fn lemma_wire_len(r: State)
    ensures
        5 <= wire(r).len() <= MAX_ENCODED_LEN,
{
    if r.t is Some {
        lemma_varint_len(zigzag(r.t->0));
    }
}

/// Five byte strings written one after the other, with more bytes after
/// them, stand in the whole each at the place where the ones before it end.
proof fn lemma_parts_in_place(
    a: Seq<u8>,
    b: Seq<u8>,
    c: Seq<u8>,
    d: Seq<u8>,
    e: Seq<u8>,
    tail: Seq<u8>,
)
    ensures
        ({
            let s = a + b + c + d + e + tail;
            let a1 = a.len() as int;
            let a2 = a1 + b.len();
            let a3 = a2 + c.len();
            let a4 = a3 + d.len();
            let a5 = a4 + e.len();
            &&& a5 <= s.len()
            &&& s.subrange(0, a1) == a
            &&& s.subrange(a1, a2) == b
            &&& s.subrange(a2, a3) == c
            &&& s.subrange(a3, a4) == d
            &&& s.subrange(a4, a5) == e
        }),
{
}

/// Round trip: the encoding of a record, with any bytes after it, holds that
/// record and no other.
pub proof fn lemma_round_trip(r: State, tail: Seq<u8>)
    ensures
        parse(wire(r) + tail) == Ok::<State, DecodeError>(r),
{
    let s = wire(r) + tail;
    let a1 = float_field(r.ln).len() as int;
    let a2 = a1 + float_field(r.lt).len();
    let a3 = a2 + float_field(r.ga).len();
    let a4 = a3 + float_field(r.aaa).len();
    lemma_parts_in_place(
        float_field(r.ln),
        float_field(r.lt),
        float_field(r.ga),
        float_field(r.aaa),
        time_field(r.t),
        tail,
    );
    lemma_read_float_of_field(s, 0, r.ln);
    lemma_read_float_of_field(s, a1, r.lt);
    lemma_read_float_of_field(s, a2, r.ga);
    lemma_read_float_of_field(s, a3, r.aaa);
    lemma_read_time_of_field(s, a4, r.t);
}

/// Decoding undoes encoding: a buffer into whose start a record was encoded
/// holds that record, whatever the rest of the buffer holds.
pub proof fn lemma_decode_inverts_encode(r: State, held: Seq<u8>)
    requires
        wire(r).len() <= held.len(),
    ensures
        parse(overlaid(held, 0, wire(r))) == Ok::<State, DecodeError>(r),
{
    let tail = held.subrange(wire(r).len() as int, held.len() as int);
    lemma_round_trip(r, tail);
}

/// A varint that is read from `s` is read the same from `s` with more bytes
/// after it.
pub proof fn lemma_read_varint_ignores_padding(s: Seq<u8>, tail: Seq<u8>, at: int, depth: nat)
    requires
        0 <= at,
        read_varint(s, at, depth) is Ok,
    ensures
        read_varint(s + tail, at, depth) == read_varint(s, at, depth),
    decreases 5 - depth,
{
    if s[at] >= 128 {
        lemma_read_varint_ignores_padding(s, tail, at + 1, depth + 1);
    }
}

/// A binary32 field that is read from `s` is read the same from `s` with
/// more bytes after it.
pub proof fn lemma_read_float_ignores_padding(s: Seq<u8>, tail: Seq<u8>, at: int)
    requires
        0 <= at,
        read_float(s, at) is Ok,
    ensures
        read_float(s + tail, at) == read_float(s, at),
{
    if s[at] == 1 {
        assert((s + tail).subrange(at + 1, at + 5) =~= s.subrange(at + 1, at + 5));
    }
}

/// A time field that is read from `s` is read the same from `s` with more
/// bytes after it.
pub proof fn lemma_read_time_ignores_padding(s: Seq<u8>, tail: Seq<u8>, at: int)
    requires
        0 <= at,
        read_time(s, at) is Ok,
    ensures
        read_time(s + tail, at) == read_time(s, at),
{
    if s[at] == 1 {
        lemma_read_varint_ignores_padding(s, tail, at + 1, 0);
    }
}

/// Padding is ignored: bytes that hold a record hold the same record with
/// any bytes after them.
pub proof fn lemma_padding_is_ignored(s: Seq<u8>, tail: Seq<u8>)
    requires
        parse(s) is Ok,
    ensures
        parse(s + tail) == parse(s),
{
    let (_, a1) = read_float(s, 0)->Ok_0;
    let (_, a2) = read_float(s, a1)->Ok_0;
    let (_, a3) = read_float(s, a2)->Ok_0;
    let (_, a4) = read_float(s, a3)->Ok_0;
    lemma_read_float_ignores_padding(s, tail, 0);
    lemma_read_float_ignores_padding(s, tail, a1);
    lemma_read_float_ignores_padding(s, tail, a2);
    lemma_read_float_ignores_padding(s, tail, a3);
    lemma_read_time_ignores_padding(s, tail, a4);
}

/// Two records with the same encoding are the same record.
pub proof fn lemma_wire_injective(a: State, b: State)
    requires
        wire(a) == wire(b),
    ensures
        a == b,
{
    lemma_round_trip(a, Seq::empty());
    lemma_round_trip(b, Seq::empty());
}

/// Writing `first` and then `second` right after it is writing both at once.
pub proof fn lemma_overlaid_twice(held: Seq<u8>, at: int, first: Seq<u8>, second: Seq<u8>)
    requires
        0 <= at,
        at + first.len() + second.len() <= held.len(),
    ensures
        overlaid(overlaid(held, at, first), at + first.len(), second) == overlaid(
            held,
            at,
            first + second,
        ),
{
}

// ---------------------------------------------------------------------------
// Encoding
// ---------------------------------------------------------------------------

fn zigzag_of(v: i32) -> (z: u32)
    ensures
        z == zigzag(v),
{
    if v >= 0 {
        2 * (v as u32)
    } else {
        let below: i32 = -(v + 1);
        2 * (below as u32) + 1
    }
}

fn varint_len(n: u32) -> (len: usize)
    ensures
        len == varint(n).len(),
        1 <= len <= 5,
{
    proof {
        lemma_varint_len(n);
    }
    if n < 128 {
        1
    } else if n < 16384 {
        2
    } else if n < 2097152 {
        3
    } else if n < 268435456 {
        4
    } else {
        5
    }
}

fn float_field_len(f: &Option<u32>) -> (len: usize)
    ensures
        len == float_field(*f).len(),
        1 <= len <= 5,
{
    match f {
        None => 1,
        Some(_) => 5,
    }
}

fn time_field_len(t: &Option<i32>) -> (len: usize)
    ensures
        len == time_field(*t).len(),
        1 <= len <= 6,
{
    match t {
        None => 1,
        Some(v) => 1 + varint_len(zigzag_of(*v)),
    }
}

/// The number of bytes that [`encode`] writes for `record`.
pub fn encoded_len(record: &State) -> (len: usize)
    ensures
        len == wire(*record).len(),
        5 <= len <= MAX_ENCODED_LEN,
{
    float_field_len(&record.ln) + float_field_len(&record.lt) + float_field_len(&record.ga)
        + float_field_len(&record.aaa) + time_field_len(&record.t)
}

fn put_byte(buf: &mut [u8], at: usize, byte: u8) -> (end: usize)
    requires
        at < old(buf)@.len(),
    ensures
        end == at + 1,
        final(buf)@ == overlaid(old(buf)@, at as int, seq![byte]),
{
    buf[at] = byte;
    at + 1
}

fn put_le_bytes(buf: &mut [u8], at: usize, bits: u32) -> (end: usize)
    requires
        at + 4 <= old(buf)@.len(),
    ensures
        end == at + 4,
        final(buf)@ == overlaid(old(buf)@, at as int, le_bytes(bits)),
{
    buf[at] = (bits % 256) as u8;
    buf[at + 1] = (bits / 256 % 256) as u8;
    buf[at + 2] = (bits / 65536 % 256) as u8;
    buf[at + 3] = (bits / 16777216) as u8;
    at + 4
}

fn put_varint(buf: &mut [u8], at: usize, n: u32) -> (end: usize)
    requires
        at + varint(n).len() <= old(buf)@.len(),
    ensures
        end == at + varint(n).len(),
        final(buf)@ == overlaid(old(buf)@, at as int, varint(n)),
{
    let ghost held = buf@;
    let ghost mut done: Seq<u8> = Seq::empty();
    let mut left: u32 = n;
    let mut pos: usize = at;
    while left >= 128
        invariant
            buf@.len() == held.len(),
            pos == at + done.len(),
            done + varint(left) == varint(n),
            at + varint(n).len() <= held.len(),
            buf@ == overlaid(held, at as int, done),
        decreases left,
    {
        let digit: u8 = (left % 128 + 128) as u8;
        buf[pos] = digit;
        proof {
            done = done + seq![digit];
        }
        left = left / 128;
        pos = pos + 1;
    }
    buf[pos] = left as u8;
    pos + 1
}

fn put_float_field(buf: &mut [u8], at: usize, f: &Option<u32>) -> (end: usize)
    requires
        at + float_field(*f).len() <= old(buf)@.len(),
    ensures
        end == at + float_field(*f).len(),
        final(buf)@ == overlaid(old(buf)@, at as int, float_field(*f)),
{
    match f {
        None => put_byte(buf, at, 0),
        Some(bits) => {
            let ghost held = buf@;
            let next: usize = put_byte(buf, at, 1);
            let end: usize = put_le_bytes(buf, next, *bits);
            proof {
                lemma_overlaid_twice(held, at as int, seq![1u8], le_bytes(*bits));
            }
            end
        },
    }
}

fn put_time_field(buf: &mut [u8], at: usize, t: &Option<i32>) -> (end: usize)
    requires
        at + time_field(*t).len() <= old(buf)@.len(),
    ensures
        end == at + time_field(*t).len(),
        final(buf)@ == overlaid(old(buf)@, at as int, time_field(*t)),
{
    match t {
        None => put_byte(buf, at, 0),
        Some(v) => {
            let ghost held = buf@;
            let next: usize = put_byte(buf, at, 1);
            let end: usize = put_varint(buf, next, zigzag_of(*v));
            proof {
                lemma_overlaid_twice(held, at as int, seq![1u8], varint(zigzag(*v)));
            }
            end
        },
    }
}

/// Writes the encoding of `record` to the start of `buf` and returns its
/// length. The bytes of `buf` after the encoding keep their values.
///
/// Fails, and leaves `buf` untouched, exactly when `buf` is shorter than the
/// encoding. A buffer of [`MAX_ENCODED_LEN`] bytes or more is never too short.
pub fn encode(record: &State, buf: &mut [u8]) -> (r: Result<usize, EncodeOverflow>)
    ensures
        match r {
            Ok(n) => {
                &&& wire(*record).len() <= old(buf)@.len()
                &&& n == wire(*record).len()
                &&& final(buf)@ == overlaid(old(buf)@, 0, wire(*record))
            },
            Err(e) => {
                &&& wire(*record).len() > old(buf)@.len()
                &&& e.needed == wire(*record).len()
                &&& e.available == old(buf)@.len()
                &&& final(buf)@ == old(buf)@
            },
        },
        old(buf)@.len() >= MAX_ENCODED_LEN ==> r is Ok,
        r is Ok ==> r->Ok_0 <= MAX_ENCODED_LEN,
        r is Ok ==> parse(final(buf)@) == Ok::<State, DecodeError>(*record),
{
    let needed: usize = encoded_len(record);
    let available: usize = buf.len();
    if needed > available {
        return Err(EncodeOverflow { needed, available });
    }
    let ghost held = buf@;
    let ghost f1 = float_field(record.ln);
    let ghost f2 = float_field(record.lt);
    let ghost f3 = float_field(record.ga);
    let ghost f4 = float_field(record.aaa);
    let ghost f5 = time_field(record.t);
    let a1: usize = put_float_field(buf, 0, &record.ln);
    let a2: usize = put_float_field(buf, a1, &record.lt);
    let a3: usize = put_float_field(buf, a2, &record.ga);
    let a4: usize = put_float_field(buf, a3, &record.aaa);
    let a5: usize = put_time_field(buf, a4, &record.t);
    proof {
        lemma_overlaid_twice(held, 0, f1, f2);
        lemma_overlaid_twice(held, 0, f1 + f2, f3);
        lemma_overlaid_twice(held, 0, f1 + f2 + f3, f4);
        lemma_overlaid_twice(held, 0, f1 + f2 + f3 + f4, f5);
        lemma_decode_inverts_encode(*record, held);
    }
    Ok(a5)
}

// ---------------------------------------------------------------------------
// Decoding
// ---------------------------------------------------------------------------

fn unzigzag_of(z: u32) -> (v: i32)
    ensures
        v == unzigzag(z),
{
    let half: i32 = (z / 2) as i32;
    if z % 2 == 0 {
        half
    } else {
        -half - 1
    }
}

/// What reading a varint gives when `value` is the sum of the digits read so
/// far, `scale` the weight of the next digit, and `rest` what reading the
/// remaining bytes gives.
spec fn joined(value: int, scale: int, rest: Result<(u32, int), DecodeError>) -> Result<
    (u32, int),
    DecodeError,
> {
    match rest {
        Ok((more, end)) => Ok(((value + scale * more) as u32, end)),
        Err(e) => Err(e),
    }
}

spec fn scale_at(depth: nat) -> int {
    if depth == 0 {
        1
    } else if depth == 1 {
        128
    } else if depth == 2 {
        16384
    } else if depth == 3 {
        2097152
    } else {
        268435456
    }
}

/// A varint read from `depth` on stays within the bits that are left, and ends
/// inside `s`.
proof fn lemma_read_varint_bounds(s: Seq<u8>, at: int, depth: nat)
    requires
        0 <= at,
    ensures
        match read_varint(s, at, depth) {
            Ok((v, end)) => v < varint_room(depth) && at < end <= s.len() && depth < 5,
            Err(_) => true,
        },
    decreases 5 - depth,
{
    if depth < 5 && at < s.len() && s[at] >= 128 {
        lemma_read_varint_bounds(s, at + 1, depth + 1);
    }
}

fn take_varint(bytes: &[u8], at: usize) -> (r: Result<(u32, usize), DecodeError>)
    requires
        at <= bytes@.len(),
    ensures
        match r {
            Ok((v, end)) => read_varint(bytes@, at as int, 0) == Ok::<(u32, int), DecodeError>(
                (v, end as int),
            ) && end <= bytes@.len(),
            Err(e) => read_varint(bytes@, at as int, 0) == Err::<(u32, int), DecodeError>(e),
        },
{
    let mut value: u32 = 0;
    let mut scale: u32 = 1;
    let mut depth: usize = 0;
    let mut pos: usize = at;
    while depth < 5
        invariant
            depth <= 5,
            pos == at + depth,
            pos <= bytes@.len(),
            scale == scale_at(depth as nat),
            value < scale,
            read_varint(bytes@, at as int, 0) == joined(
                value as int,
                scale as int,
                read_varint(bytes@, pos as int, depth as nat),
            ),
        decreases 5 - depth,
    {
        if pos >= bytes.len() {
            return Err(DecodeError::UnexpectedEnd);
        }
        let byte: u8 = bytes[pos];
        proof {
            lemma_read_varint_bounds(bytes@, pos as int, depth as nat);
            lemma_read_varint_bounds(bytes@, pos + 1, (depth + 1) as nat);
        }
        if byte < 128 {
            if depth == 4 && byte > 15 {
                return Err(DecodeError::BadVarint);
            }
            return Ok((value + scale * (byte as u32), pos + 1));
        }
        if depth == 4 {
            return Err(DecodeError::BadVarint);
        }
        proof {
            if let Ok((rest, _)) = read_varint(bytes@, pos + 1, (depth + 1) as nat) {
                let low: int = byte - 128;
                assert(scale * (low + 128 * rest) == scale * low + (scale * 128) * rest)
                    by (nonlinear_arith);
            }
        }
        value = value + scale * ((byte - 128) as u32);
        scale = scale * 128;
        depth = depth + 1;
        pos = pos + 1;
    }
    Err(DecodeError::BadVarint)
}

fn take_float_field(bytes: &[u8], at: usize) -> (r: Result<(Option<u32>, usize), DecodeError>)
    requires
        at <= bytes@.len(),
    ensures
        match r {
            Ok((f, end)) => read_float(bytes@, at as int) == Ok::<(Option<u32>, int), DecodeError>(
                (f, end as int),
            ) && end <= bytes@.len(),
            Err(e) => read_float(bytes@, at as int) == Err::<(Option<u32>, int), DecodeError>(e),
        },
{
    if at >= bytes.len() {
        return Err(DecodeError::UnexpectedEnd);
    }
    let tag: u8 = bytes[at];
    if tag == 0 {
        Ok((None, at + 1))
    } else if tag == 1 {
        if bytes.len() - at < 5 {
            return Err(DecodeError::UnexpectedEnd);
        }
        let b0: u32 = bytes[at + 1] as u32;
        let b1: u32 = bytes[at + 2] as u32;
        let b2: u32 = bytes[at + 3] as u32;
        let b3: u32 = bytes[at + 4] as u32;
        Ok((Some(b0 + 256 * b1 + 65536 * b2 + 16777216 * b3), at + 5))
    } else {
        Err(DecodeError::BadOption)
    }
}

fn take_time_field(bytes: &[u8], at: usize) -> (r: Result<(Option<i32>, usize), DecodeError>)
    requires
        at <= bytes@.len(),
    ensures
        match r {
            Ok((t, end)) => read_time(bytes@, at as int) == Ok::<(Option<i32>, int), DecodeError>(
                (t, end as int),
            ) && end <= bytes@.len(),
            Err(e) => read_time(bytes@, at as int) == Err::<(Option<i32>, int), DecodeError>(e),
        },
{
    if at >= bytes.len() {
        return Err(DecodeError::UnexpectedEnd);
    }
    let tag: u8 = bytes[at];
    if tag == 0 {
        Ok((None, at + 1))
    } else if tag == 1 {
        match take_varint(bytes, at + 1) {
            Ok((z, end)) => Ok((Some(unzigzag_of(z)), end)),
            Err(e) => Err(e),
        }
    } else {
        Err(DecodeError::BadOption)
    }
}

/// Reads the record that `bytes` starts with. Bytes after the record are
/// ignored.
///
/// Fails with [`DecodeError::UnexpectedEnd`] when `bytes` ends inside the
/// record, with [`DecodeError::BadOption`] at a presence byte other than `0`
/// and `1`, and with [`DecodeError::BadVarint`] at a time that overruns five
/// bytes or 32 bits, whichever comes first in the bytes.
pub fn decode(bytes: &[u8]) -> (r: Result<State, DecodeError>)
    ensures
        r == parse(bytes@),
{
    let (ln, a1) = match take_float_field(bytes, 0) {
        Ok(read) => read,
        Err(e) => return Err(e),
    };
    let (lt, a2) = match take_float_field(bytes, a1) {
        Ok(read) => read,
        Err(e) => return Err(e),
    };
    let (ga, a3) = match take_float_field(bytes, a2) {
        Ok(read) => read,
        Err(e) => return Err(e),
    };
    let (aaa, a4) = match take_float_field(bytes, a3) {
        Ok(read) => read,
        Err(e) => return Err(e),
    };
    let (t, _) = match take_time_field(bytes, a4) {
        Ok(read) => read,
        Err(e) => return Err(e),
    };
    Ok(State { ln, lt, ga, aaa, t })
}

} // verus!
