//! Fixed-width telemetry records exchanged over the radio link.
//!
//! Every measured quantity travels as a 32-bit word holding an IEEE-754
//! single-precision bit pattern. The codec moves words and never interprets
//! them, so a record survives the link bit for bit.

use crate::word::same_number;
use crate::word::word_eq;
use vstd::prelude::*;
use vstd::std_specs::cmp::PartialEqSpecImpl;

verus! {

/// Number of bytes in one encoded [`RocketData`] record.
pub const DATA_STREAM_SIZE: usize = 34;

/// The four bytes of a 32-bit word, most significant first.
pub open spec fn be_bytes(x: u32) -> Seq<u8> {
    seq![
        (x / 0x100_0000) as u8,
        (x / 0x1_0000 % 0x100) as u8,
        (x / 0x100 % 0x100) as u8,
        (x % 0x100) as u8,
    ]
}

/// The word whose big-endian bytes are `b[at..at + 4]`.
pub open spec fn be_word(b: Seq<u8>, at: int) -> u32 {
    (b[at] * 0x100_0000 + b[at + 1] * 0x1_0000 + b[at + 2] * 0x100 + b[at + 3]) as u32
}

/// Fix quality in the high nibble, fix type in the low nibble.
pub open spec fn packed_fix(quality: u8, fix: u8) -> u8 {
    (quality << 4) | (fix & 0xF)
}

/// First continuity flag in bit 0, second in bit 1.
pub open spec fn packed_cont(cont1: bool, cont2: bool) -> u8 {
    if cont1 {
        if cont2 { 3 } else { 1 }
    } else {
        if cont2 { 2 } else { 0 }
    }
}

/// One downlink record as the rocket reports it.
#[derive(Debug, Clone, Copy)]
pub struct RocketData {
    /// Milliseconds since start-up.
    pub time: u32,
    pub altitude: u32,
    pub orx: u32,
    pub ory: u32,
    pub orz: u32,
    pub lat: u32,
    pub long: u32,
    pub speed: u32,
    /// Fix type; only the low four bits travel.
    pub fix: u8,
    /// Fix quality; only the low four bits travel.
    pub quality: u8,
    pub cont1: bool,
    pub cont2: bool,
}

impl RocketData {
    /// Both nibble fields fit in four bits, so nothing is lost on the wire.
    pub open spec fn fits(self) -> bool {
        self.fix < 16 && self.quality < 16
    }

    /// The two records report the same numbers: measurements are compared
    /// as numbers, everything else exactly.
    pub open spec fn same_reading(self, other: RocketData) -> bool {
        &&& self.time == other.time
        &&& same_number(self.altitude, other.altitude)
        &&& same_number(self.orx, other.orx)
        &&& same_number(self.ory, other.ory)
        &&& same_number(self.orz, other.orz)
        &&& same_number(self.lat, other.lat)
        &&& same_number(self.long, other.long)
        &&& same_number(self.speed, other.speed)
        &&& self.fix == other.fix
        &&& self.quality == other.quality
        &&& self.cont1 == other.cont1
        &&& self.cont2 == other.cont2
    }
}

impl PartialEq for RocketData {
    /// Two records are equal when they report the same numbers.
    fn eq(&self, other: &Self) -> (r: bool) {
        let b_time = self.time == other.time;
        let b_altitude = word_eq(self.altitude, other.altitude);
        let b_orx = word_eq(self.orx, other.orx);
        let b_ory = word_eq(self.ory, other.ory);
        let b_orz = word_eq(self.orz, other.orz);
        let b_lat = word_eq(self.lat, other.lat);
        let b_long = word_eq(self.long, other.long);
        let b_speed = word_eq(self.speed, other.speed);
        let b_fix = self.fix == other.fix;
        let b_quality = self.quality == other.quality;
        let b_cont1 = self.cont1 == other.cont1;
        let b_cont2 = self.cont2 == other.cont2;

        b_time && b_altitude && b_orx && b_ory && b_orz && b_lat && b_long && b_speed && b_fix
            && b_quality && b_cont1 && b_cont2
    }
}

impl PartialEqSpecImpl for RocketData {
    open spec fn obeys_eq_spec() -> bool {
        true
    }

    open spec fn eq_spec(&self, other: &Self) -> bool {
        self.same_reading(*other)
    }
}

/// The bytes that stand for `d` on the wire.
pub open spec fn encoding(d: RocketData) -> Seq<u8> {
    be_bytes(d.time) + be_bytes(d.altitude) + be_bytes(d.orx) + be_bytes(d.ory) + be_bytes(d.orz)
        + be_bytes(d.lat) + be_bytes(d.long) + be_bytes(d.speed) + seq![
        packed_fix(d.quality, d.fix),
        packed_cont(d.cont1, d.cont2),
    ]
}

/// The record that the bytes `b` stand for.
pub open spec fn decoding(b: Seq<u8>) -> RocketData {
    RocketData {
        time: be_word(b, 0),
        altitude: be_word(b, 4),
        orx: be_word(b, 8),
        ory: be_word(b, 12),
        orz: be_word(b, 16),
        lat: be_word(b, 20),
        long: be_word(b, 24),
        speed: be_word(b, 28),
        fix: b[32] & 0xF,
        quality: b[32] >> 4,
        cont1: b[33] & 1 == 1,
        cont2: (b[33] >> 1) & 1 == 1,
    }
}

/// Splits a word into its bytes, most significant first.
fn word_to_be(x: u32) -> (b: [u8; 4])
    ensures
        b@ == be_bytes(x),
{
    let b: [u8; 4] = [
        (x / 0x100_0000) as u8,
        (x / 0x1_0000 % 0x100) as u8,
        (x / 0x100 % 0x100) as u8,
        (x % 0x100) as u8,
    ];
    assert(b@ =~= be_bytes(x));
    b
}

/// Joins the four bytes at `at`, most significant first, into a word.
fn word_from_be(buf: &[u8; DATA_STREAM_SIZE], at: usize) -> (x: u32)
    requires
        at + 4 <= DATA_STREAM_SIZE,
    ensures
        x == be_word(buf@, at as int),
{
    let b0: u32 = buf[at] as u32;
    let b1: u32 = buf[at + 1] as u32;
    let b2: u32 = buf[at + 2] as u32;
    let b3: u32 = buf[at + 3] as u32;
    b0 * 0x100_0000 + b1 * 0x1_0000 + b2 * 0x100 + b3
}

/// Serialises a record into its fixed 34-byte big-endian form.
pub fn encode_stream(data: &RocketData) -> (r: Result<[u8; DATA_STREAM_SIZE], String>)
    ensures
        r is Ok,
        r.unwrap()@ == encoding(*data),
{
    let t = word_to_be(data.time);
    let a = word_to_be(data.altitude);
    let x = word_to_be(data.orx);
    let y = word_to_be(data.ory);
    let z = word_to_be(data.orz);
    let la = word_to_be(data.lat);
    let lo = word_to_be(data.long);
    let s = word_to_be(data.speed);

    let fix_qual: u8 = (data.quality << 4) | (data.fix & 0b0000_1111);

    let mut conts: u8 = 0;
    if data.cont1 {
        conts += 1;
    }
    if data.cont2 {
        conts += 2;
    }

    let buf: [u8; DATA_STREAM_SIZE] = [
        t[0], t[1], t[2], t[3],
        a[0], a[1], a[2], a[3],
        x[0], x[1], x[2], x[3],
        y[0], y[1], y[2], y[3],
        z[0], z[1], z[2], z[3],
        la[0], la[1], la[2], la[3],
        lo[0], lo[1], lo[2], lo[3],
        s[0], s[1], s[2], s[3],
        fix_qual,
        conts,
    ];
    assert(buf@ =~= encoding(*data));
    Ok(buf)
}

/// Reads a record back from its fixed 34-byte big-endian form.
pub fn decode_stream(buf: [u8; DATA_STREAM_SIZE]) -> (r: Result<RocketData, String>)
    ensures
        r is Ok,
        r.unwrap() == decoding(buf@),
{
    let time = word_from_be(&buf, 0);
    let altitude = word_from_be(&buf, 4);
    let orx = word_from_be(&buf, 8);
    let ory = word_from_be(&buf, 12);
    let orz = word_from_be(&buf, 16);
    let lat = word_from_be(&buf, 20);
    let long = word_from_be(&buf, 24);
    let speed = word_from_be(&buf, 28);

    let fix: u8 = buf[32] & 0b0000_1111;
    let quality: u8 = buf[32] >> 4;

    let cont1: bool = buf[33] & 1 == 1;
    let cont2: bool = (buf[33] >> 1) & 1 == 1;

    Ok(RocketData { time, altitude, orx, ory, orz, lat, long, speed, fix, quality, cont1, cont2 })
}

/// Splitting a word into four bytes and joining them again changes nothing.
proof fn lemma_split_join(x: u32)
    by (bit_vector)
    ensures
        x / 0x100_0000 < 0x100,
        (x / 0x100_0000) * 0x100_0000 + (x / 0x1_0000 % 0x100) * 0x1_0000 + (x / 0x100 % 0x100)
            * 0x100 + x % 0x100 == x,
{
}

/// Joining four bytes into a word and splitting it again changes nothing.
proof fn lemma_join_split(b0: u32, b1: u32, b2: u32, b3: u32)
    by (bit_vector)
    requires
        b0 < 0x100,
        b1 < 0x100,
        b2 < 0x100,
        b3 < 0x100,
    ensures
        b0 * 0x100_0000 + b1 * 0x1_0000 + b2 * 0x100 + b3 < 0x1_0000_0000,
        (b0 * 0x100_0000 + b1 * 0x1_0000 + b2 * 0x100 + b3) / 0x100_0000 == b0,
        (b0 * 0x100_0000 + b1 * 0x1_0000 + b2 * 0x100 + b3) / 0x1_0000 % 0x100 == b1,
        (b0 * 0x100_0000 + b1 * 0x1_0000 + b2 * 0x100 + b3) / 0x100 % 0x100 == b2,
        (b0 * 0x100_0000 + b1 * 0x1_0000 + b2 * 0x100 + b3) % 0x100 == b3,
{
}

/// Reads a record from a packet as it came off the link. A packet of any
/// length but 34 bytes is no record and is rejected before any field is
/// looked at.
pub fn decode_packet(buf: &[u8]) -> (r: Option<RocketData>)
    ensures
        r == if buf@.len() == DATA_STREAM_SIZE {
            Some(decoding(buf@))
        } else {
            None
        },
{
    if buf.len() != DATA_STREAM_SIZE {
        return None;
    }
    let mut record: [u8; DATA_STREAM_SIZE] = [0u8; DATA_STREAM_SIZE];
    let mut i: usize = 0;
    while i < DATA_STREAM_SIZE
        invariant
            i <= DATA_STREAM_SIZE,
            buf@.len() == DATA_STREAM_SIZE,
            forall|k: int| 0 <= k < i ==> record@[k] == buf@[k],
        decreases DATA_STREAM_SIZE - i,
    {
        record[i] = buf[i];
        i += 1;
    }
    assert(record@ =~= buf@);
    match decode_stream(record) {
        Ok(data) => Some(data),
        Err(_) => None,
    }
}

/// A word read back from its own four bytes is unchanged.
pub proof fn lemma_word_of_bytes(b: Seq<u8>, at: int, x: u32)
    requires
        0 <= at,
        at + 4 <= b.len(),
        b.subrange(at, at + 4) == be_bytes(x),
    ensures
        be_word(b, at) == x,
{
    let w = b.subrange(at, at + 4);
    assert(b[at] == w[0]);
    assert(b[at + 1] == w[1]);
    assert(b[at + 2] == w[2]);
    assert(b[at + 3] == w[3]);
    lemma_split_join(x);
}

/// The four bytes of a word that was read from four bytes are those bytes.
pub proof fn lemma_bytes_of_word(b: Seq<u8>, at: int)
    requires
        0 <= at,
        at + 4 <= b.len(),
    ensures
        be_bytes(be_word(b, at)) == b.subrange(at, at + 4),
{
    lemma_join_split(b[at] as u32, b[at + 1] as u32, b[at + 2] as u32, b[at + 3] as u32);
    let x = be_word(b, at);
    let w = b.subrange(at, at + 4);
    assert(be_bytes(x)[0] == w[0]);
    assert(be_bytes(x)[1] == w[1]);
    assert(be_bytes(x)[2] == w[2]);
    assert(be_bytes(x)[3] == w[3]);
    assert(be_bytes(x) =~= w);
}

/// Where each field lies in an encoded record.
pub proof fn lemma_encoding_layout(d: RocketData)
    ensures
        encoding(d).len() == DATA_STREAM_SIZE,
        encoding(d).subrange(0, 4) == be_bytes(d.time),
        encoding(d).subrange(4, 8) == be_bytes(d.altitude),
        encoding(d).subrange(8, 12) == be_bytes(d.orx),
        encoding(d).subrange(12, 16) == be_bytes(d.ory),
        encoding(d).subrange(16, 20) == be_bytes(d.orz),
        encoding(d).subrange(20, 24) == be_bytes(d.lat),
        encoding(d).subrange(24, 28) == be_bytes(d.long),
        encoding(d).subrange(28, 32) == be_bytes(d.speed),
        encoding(d)[32] == packed_fix(d.quality, d.fix),
        encoding(d)[33] == packed_cont(d.cont1, d.cont2),
{
    let b = encoding(d);
    assert(b.subrange(0, 4) =~= be_bytes(d.time));
    assert(b.subrange(4, 8) =~= be_bytes(d.altitude));
    assert(b.subrange(8, 12) =~= be_bytes(d.orx));
    assert(b.subrange(12, 16) =~= be_bytes(d.ory));
    assert(b.subrange(16, 20) =~= be_bytes(d.orz));
    assert(b.subrange(20, 24) =~= be_bytes(d.lat));
    assert(b.subrange(24, 28) =~= be_bytes(d.long));
    assert(b.subrange(28, 32) =~= be_bytes(d.speed));
}

/// What the two packed bytes give back.
pub proof fn lemma_packed_bytes(quality: u8, fix: u8, cont1: bool, cont2: bool)
    requires
        quality < 16,
        fix < 16,
    ensures
        packed_fix(quality, fix) & 0xF == fix,
        packed_fix(quality, fix) >> 4 == quality,
        (packed_cont(cont1, cont2) & 1 == 1) == cont1,
        ((packed_cont(cont1, cont2) >> 1) & 1 == 1) == cont2,
{
    assert(((quality << 4) | (fix & 0xF)) & 0xF == fix && ((quality << 4) | (fix & 0xF)) >> 4
        == quality) by (bit_vector)
        requires
            quality < 16,
            fix < 16,
    ;
    assert(1u8 & 1 == 1 && 3u8 & 1 == 1 && 0u8 & 1 == 0 && 2u8 & 1 == 0) by (bit_vector);
    assert((1u8 >> 1) & 1 == 0 && (3u8 >> 1) & 1 == 1 && (0u8 >> 1) & 1 == 0 && (2u8 >> 1) & 1
        == 1) by (bit_vector);
}

/// Decoding an encoded record gives the record back, bit for bit in every
/// field, whenever its two nibble fields fit in four bits.
pub proof fn lemma_decode_encode(d: RocketData)
    requires
        d.fits(),
    ensures
        encoding(d).len() == DATA_STREAM_SIZE,
        decoding(encoding(d)) == d,
{
    let b = encoding(d);
    lemma_encoding_layout(d);
    lemma_word_of_bytes(b, 0, d.time);
    lemma_word_of_bytes(b, 4, d.altitude);
    lemma_word_of_bytes(b, 8, d.orx);
    lemma_word_of_bytes(b, 12, d.ory);
    lemma_word_of_bytes(b, 16, d.orz);
    lemma_word_of_bytes(b, 20, d.lat);
    lemma_word_of_bytes(b, 24, d.long);
    lemma_word_of_bytes(b, 28, d.speed);
    lemma_packed_bytes(d.quality, d.fix, d.cont1, d.cont2);
}

/// Encoding a decoded record gives the bytes back whenever the last byte
/// carries nothing above its two continuity bits.
pub proof fn lemma_encode_decode(b: Seq<u8>)
    requires
        b.len() == DATA_STREAM_SIZE,
        b[33] < 4,
    ensures
        decoding(b).fits(),
        encoding(decoding(b)) == b,
{
    let d = decoding(b);
    let x = b[32];
    assert(x & 0xF < 16 && x >> 4 < 16 && ((x >> 4) << 4) | ((x & 0xF) & 0xF) == x)
        by (bit_vector);
    let c = b[33];
    assert(c < 4 ==> packed_cont(c & 1 == 1, (c >> 1) & 1 == 1) == c) by (bit_vector);
    lemma_bytes_of_word(b, 0);
    lemma_bytes_of_word(b, 4);
    lemma_bytes_of_word(b, 8);
    lemma_bytes_of_word(b, 12);
    lemma_bytes_of_word(b, 16);
    lemma_bytes_of_word(b, 20);
    lemma_bytes_of_word(b, 24);
    lemma_bytes_of_word(b, 28);
    lemma_encoding_layout(d);
    let e = encoding(d);
    assert forall|i: int| 0 <= i < 34 implies e[i] == b[i] by {
        if i < 4 {
            assert(e[i] == e.subrange(0, 4)[i]);
            assert(b[i] == b.subrange(0, 4)[i]);
        } else if i < 8 {
            assert(e[i] == e.subrange(4, 8)[i - 4]);
            assert(b[i] == b.subrange(4, 8)[i - 4]);
        } else if i < 12 {
            assert(e[i] == e.subrange(8, 12)[i - 8]);
            assert(b[i] == b.subrange(8, 12)[i - 8]);
        } else if i < 16 {
            assert(e[i] == e.subrange(12, 16)[i - 12]);
            assert(b[i] == b.subrange(12, 16)[i - 12]);
        } else if i < 20 {
            assert(e[i] == e.subrange(16, 20)[i - 16]);
            assert(b[i] == b.subrange(16, 20)[i - 16]);
        } else if i < 24 {
            assert(e[i] == e.subrange(20, 24)[i - 20]);
            assert(b[i] == b.subrange(20, 24)[i - 20]);
        } else if i < 28 {
            assert(e[i] == e.subrange(24, 28)[i - 24]);
            assert(b[i] == b.subrange(24, 28)[i - 24]);
        } else if i < 32 {
            assert(e[i] == e.subrange(28, 32)[i - 28]);
            assert(b[i] == b.subrange(28, 32)[i - 28]);
        }
    }
    assert(e =~= b);
}

/// Number of bytes in one downlink [`Frame`].
pub const FRAME_SIZE: usize = 32;

/// One downlink frame: eight words, each sent least significant byte first.
#[derive(Debug, Clone, Copy, PartialEq, Eq, Structural)]
pub struct Frame {
    /// Seconds since start-up.
    pub time: u32,
    /// Estimated altitude.
    pub alt: u32,
    /// Barometric altitude.
    pub balt: u32,
    /// Estimated vertical velocity.
    pub vel: u32,
    pub w: u32,
    pub x: u32,
    pub y: u32,
    pub z: u32,
}

/// The four bytes of a 32-bit word, least significant first.
pub open spec fn le_bytes(x: u32) -> Seq<u8> {
    seq![
        (x % 0x100) as u8,
        (x / 0x100 % 0x100) as u8,
        (x / 0x1_0000 % 0x100) as u8,
        (x / 0x100_0000) as u8,
    ]
}

/// The word whose little-endian bytes are `b[at..at + 4]`.
pub open spec fn le_word(b: Seq<u8>, at: int) -> u32 {
    (b[at] + b[at + 1] * 0x100 + b[at + 2] * 0x1_0000 + b[at + 3] * 0x100_0000) as u32
}

/// The frame that the bytes `b` stand for.
pub open spec fn frame_of(b: Seq<u8>) -> Frame {
    Frame {
        time: le_word(b, 0),
        alt: le_word(b, 4),
        balt: le_word(b, 8),
        vel: le_word(b, 12),
        w: le_word(b, 16),
        x: le_word(b, 20),
        y: le_word(b, 24),
        z: le_word(b, 28),
    }
}

/// The bytes that stand for the frame `f`.
pub open spec fn frame_bytes(f: Frame) -> Seq<u8> {
    le_bytes(f.time) + le_bytes(f.alt) + le_bytes(f.balt) + le_bytes(f.vel) + le_bytes(f.w)
        + le_bytes(f.x) + le_bytes(f.y) + le_bytes(f.z)
}

/// Joins the four bytes at `at`, least significant first, into a word.
fn word_from_le(buf: &[u8], at: usize) -> (x: u32)
    requires
        at + 4 <= buf@.len(),
    ensures
        x == le_word(buf@, at as int),
{
    let b0: u32 = buf[at] as u32;
    let b1: u32 = buf[at + 1] as u32;
    let b2: u32 = buf[at + 2] as u32;
    let b3: u32 = buf[at + 3] as u32;
    b0 + b1 * 0x100 + b2 * 0x1_0000 + b3 * 0x100_0000
}

/// Splits a word into its bytes, least significant first.
fn word_to_le(x: u32) -> (b: [u8; 4])
    ensures
        b@ == le_bytes(x),
{
    let b: [u8; 4] = [
        (x % 0x100) as u8,
        (x / 0x100 % 0x100) as u8,
        (x / 0x1_0000 % 0x100) as u8,
        (x / 0x100_0000) as u8,
    ];
    assert(b@ =~= le_bytes(x));
    b
}

/// Reads a downlink frame. A packet of any length but 32 bytes is no
/// frame and is rejected before any field is looked at.
pub fn decode_frame(buf: &[u8]) -> (r: Option<Frame>)
    ensures
        r == if buf@.len() == FRAME_SIZE {
            Some(frame_of(buf@))
        } else {
            None
        },
{
    if buf.len() != FRAME_SIZE {
        return None;
    }
    let time = word_from_le(buf, 0);
    let alt = word_from_le(buf, 4);
    let balt = word_from_le(buf, 8);
    let vel = word_from_le(buf, 12);
    let w = word_from_le(buf, 16);
    let x = word_from_le(buf, 20);
    let y = word_from_le(buf, 24);
    let z = word_from_le(buf, 28);
    Some(Frame { time, alt, balt, vel, w, x, y, z })
}

/// Serialises a downlink frame into its 32 bytes.
pub fn encode_frame(f: &Frame) -> (buf: [u8; FRAME_SIZE])
    ensures
        buf@ == frame_bytes(*f),
{
    let t = word_to_le(f.time);
    let a = word_to_le(f.alt);
    let b = word_to_le(f.balt);
    let v = word_to_le(f.vel);
    let w = word_to_le(f.w);
    let x = word_to_le(f.x);
    let y = word_to_le(f.y);
    let z = word_to_le(f.z);
    let buf: [u8; FRAME_SIZE] = [
        t[0], t[1], t[2], t[3],
        a[0], a[1], a[2], a[3],
        b[0], b[1], b[2], b[3],
        v[0], v[1], v[2], v[3],
        w[0], w[1], w[2], w[3],
        x[0], x[1], x[2], x[3],
        y[0], y[1], y[2], y[3],
        z[0], z[1], z[2], z[3],
    ];
    assert(buf@ =~= frame_bytes(*f));
    buf
}

/// A little-endian word read back from its own four bytes is unchanged.
pub proof fn lemma_le_word_of_bytes(b: Seq<u8>, at: int, x: u32)
    requires
        0 <= at,
        at + 4 <= b.len(),
        b.subrange(at, at + 4) == le_bytes(x),
    ensures
        le_word(b, at) == x,
{
    let w = b.subrange(at, at + 4);
    assert(b[at] == w[0]);
    assert(b[at + 1] == w[1]);
    assert(b[at + 2] == w[2]);
    assert(b[at + 3] == w[3]);
    lemma_split_join(x);
}

/// Decoding an encoded frame gives the frame back, bit for bit.
pub proof fn lemma_frame_round_trip(f: Frame)
    ensures
        frame_bytes(f).len() == FRAME_SIZE,
        frame_of(frame_bytes(f)) == f,
{
    let b = frame_bytes(f);
    assert(b.subrange(0, 4) =~= le_bytes(f.time));
    assert(b.subrange(4, 8) =~= le_bytes(f.alt));
    assert(b.subrange(8, 12) =~= le_bytes(f.balt));
    assert(b.subrange(12, 16) =~= le_bytes(f.vel));
    assert(b.subrange(16, 20) =~= le_bytes(f.w));
    assert(b.subrange(20, 24) =~= le_bytes(f.x));
    assert(b.subrange(24, 28) =~= le_bytes(f.y));
    assert(b.subrange(28, 32) =~= le_bytes(f.z));
    lemma_le_word_of_bytes(b, 0, f.time);
    lemma_le_word_of_bytes(b, 4, f.alt);
    lemma_le_word_of_bytes(b, 8, f.balt);
    lemma_le_word_of_bytes(b, 12, f.vel);
    lemma_le_word_of_bytes(b, 16, f.w);
    lemma_le_word_of_bytes(b, 20, f.x);
    lemma_le_word_of_bytes(b, 24, f.y);
    lemma_le_word_of_bytes(b, 28, f.z);
}

} // verus!
