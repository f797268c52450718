//! A buffer-backed writer for the little-endian binary fields inside HWP records.
//!
//! It is the reverse of the record reader: integers are written little-endian and
//! strings as a `u16` unit count followed by UTF-16LE code units.

use byteorder::{LittleEndian, WriteBytesExt};
use vstd::prelude::*;

verus! {

#[verifier::external_type_specification]
#[verifier::external_body]
pub struct ExIoError(std::io::Error);

/// The two little-endian bytes of a `u16`.
pub open spec fn le16(v: u16) -> Seq<u8> {
    seq![(v % 256) as u8, (v / 256) as u8]
}

/// The four little-endian bytes of a `u32`.
pub open spec fn le32(v: u32) -> Seq<u8> {
    seq![(v % 256) as u8, ((v / 256) % 256) as u8, ((v / 65536) % 256) as u8, (v / 16777216) as u8]
}

/// The two's-complement bit pattern of an `i8`.
pub open spec fn i8_bits(v: i8) -> u8 {
    (if v < 0 { v + 256 } else { v as int }) as u8
}

/// The two's-complement bit pattern of an `i16`.
pub open spec fn i16_bits(v: i16) -> u16 {
    (if v < 0 { v + 65536 } else { v as int }) as u16
}

/// The two's-complement bit pattern of an `i32`.
pub open spec fn i32_bits(v: i32) -> u32 {
    (if v < 0 { v + 0x1_0000_0000 } else { v as int }) as u32
}

/// The UTF-16 code units of one character.
pub open spec fn utf16_units(c: char) -> Seq<u16> {
    let v = (c as u32) as int;
    if v < 0x10000 {
        seq![v as u16]
    } else {
        seq![
            ((0xD800 + (v - 0x10000) / 1024) % 0x10000) as u16,
            (0xDC00 + (v - 0x10000) % 1024) as u16,
        ]
    }
}

/// The UTF-16 code units of a character sequence.
pub open spec fn utf16_encode(s: Seq<char>) -> Seq<u16>
    decreases s.len(),
{
    if s.len() == 0 {
        Seq::empty()
    } else {
        utf16_encode(s.drop_last()) + utf16_units(s.last())
    }
}

/// Code units, each written as two little-endian bytes.
pub open spec fn units_le(units: Seq<u16>) -> Seq<u8>
    decreases units.len(),
{
    if units.len() == 0 {
        Seq::empty()
    } else {
        units_le(units.drop_last()) + le16(units.last())
    }
}

/// The HWP string encoding: the unit count (modulo 2^16) and then the units.
pub open spec fn hwp_string_bytes(s: Seq<char>) -> Seq<u8> {
    le16((utf16_encode(s).len() % 65536) as u16) + units_le(utf16_encode(s))
}

proof fn lemma_units_le_len(u: Seq<u16>)
    ensures
        units_le(u).len() == 2 * u.len(),
    decreases u.len(),
{
    if u.len() > 0 {
        lemma_units_le_len(u.drop_last());
    }
}

/// An HWP string takes two bytes for its unit count and two bytes for each
/// of its UTF-16 code units.
pub proof fn law_hwp_string_length(s: Seq<char>)
    ensures
        hwp_string_bytes(s).len() == 2 + 2 * utf16_encode(s).len(),
{
    lemma_units_le_len(utf16_encode(s));
}

/// `WriteBytesExt::write_u8` on a `Vec<u8>`; writing into a vector never fails.
#[verifier::external_body]
fn vec_write_u8(buf: &mut Vec<u8>, v: u8) -> (r: std::io::Result<()>)
    ensures
        r is Ok,
        final(buf)@ == old(buf)@.push(v),
{
    buf.write_u8(v)
}

/// `WriteBytesExt::write_i8` on a `Vec<u8>`; writes the byte pattern of `v`.
#[verifier::external_body]
fn vec_write_i8(buf: &mut Vec<u8>, v: i8) -> (r: std::io::Result<()>)
    ensures
        r is Ok,
        final(buf)@ == old(buf)@.push(i8_bits(v)),
{
    buf.write_i8(v)
}

/// `WriteBytesExt::write_u16::<LittleEndian>` on a `Vec<u8>`.
#[verifier::external_body]
fn vec_write_u16_le(buf: &mut Vec<u8>, v: u16) -> (r: std::io::Result<()>)
    ensures
        r is Ok,
        final(buf)@ == old(buf)@ + le16(v),
{
    buf.write_u16::<LittleEndian>(v)
}

/// `WriteBytesExt::write_u32::<LittleEndian>` on a `Vec<u8>`.
#[verifier::external_body]
fn vec_write_u32_le(buf: &mut Vec<u8>, v: u32) -> (r: std::io::Result<()>)
    ensures
        r is Ok,
        final(buf)@ == old(buf)@ + le32(v),
{
    buf.write_u32::<LittleEndian>(v)
}

/// `WriteBytesExt::write_i16::<LittleEndian>` on a `Vec<u8>`.
#[verifier::external_body]
fn vec_write_i16_le(buf: &mut Vec<u8>, v: i16) -> (r: std::io::Result<()>)
    ensures
        r is Ok,
        final(buf)@ == old(buf)@ + le16(i16_bits(v)),
{
    buf.write_i16::<LittleEndian>(v)
}

/// `WriteBytesExt::write_i32::<LittleEndian>` on a `Vec<u8>`.
#[verifier::external_body]
fn vec_write_i32_le(buf: &mut Vec<u8>, v: i32) -> (r: std::io::Result<()>)
    ensures
        r is Ok,
        final(buf)@ == old(buf)@ + le32(i32_bits(v)),
{
    buf.write_i32::<LittleEndian>(v)
}

/// Byte writer over a growable buffer.
pub struct ByteWriter {
    buf: Vec<u8>,
}

impl View for ByteWriter {
    type V = Seq<u8>;

    closed spec fn view(&self) -> Seq<u8> {
        self.buf@
    }
}

fn encode_utf16(s: &str) -> (units: Vec<u16>)
    ensures
        units@ == utf16_encode(s@),
{
    let mut units: Vec<u16> = Vec::new();
    for c in it: s.chars()
        invariant
            it.seq() == s@,
            units@ == utf16_encode(it.seq().take(it.index() as int)),
    {
        let ghost before = it.seq().take(it.index() as int);
        assert(it.seq().take(it.index() + 1) == before.push(c));
        assert(it.seq().take(it.index() + 1).drop_last() == before);
        let v = c as u32;
        if v < 0x10000 {
            units.push(v as u16);
        } else {
            let w = v - 0x10000;
            units.push(((0xD800 + w / 1024) % 0x10000) as u16);
            units.push((0xDC00 + w % 1024) as u16);
        }
        assert(units@ == utf16_encode(before) + utf16_units(c));
    }
    assert(s@.take(s@.len() as int) == s@);
    units
}

impl ByteWriter {
    /// An empty writer.
    pub fn new() -> (w: Self)
        ensures
            w@ == Seq::<u8>::empty(),
    {
        ByteWriter { buf: Vec::new() }
    }

    /// The number of bytes written so far.
    pub fn position(&self) -> (n: usize)
        ensures
            n == self@.len(),
    {
        self.buf.len()
    }

    /// Writes one byte.
    pub fn write_u8(&mut self, v: u8) -> (r: std::io::Result<()>)
        ensures
            r is Ok,
            final(self)@ == old(self)@.push(v),
    {
        vec_write_u8(&mut self.buf, v)
    }

    /// Writes a `u16`, little-endian.
    pub fn write_u16(&mut self, v: u16) -> (r: std::io::Result<()>)
        ensures
            r is Ok,
            final(self)@ == old(self)@ + le16(v),
    {
        vec_write_u16_le(&mut self.buf, v)
    }

    /// Writes a `u32`, little-endian.
    pub fn write_u32(&mut self, v: u32) -> (r: std::io::Result<()>)
        ensures
            r is Ok,
            final(self)@ == old(self)@ + le32(v),
    {
        vec_write_u32_le(&mut self.buf, v)
    }

    /// Writes an `i8` as its byte pattern.
    pub fn write_i8(&mut self, v: i8) -> (r: std::io::Result<()>)
        ensures
            r is Ok,
            final(self)@ == old(self)@.push(i8_bits(v)),
    {
        vec_write_i8(&mut self.buf, v)
    }

    /// Writes an `i16`, little-endian two's complement.
    pub fn write_i16(&mut self, v: i16) -> (r: std::io::Result<()>)
        ensures
            r is Ok,
            final(self)@ == old(self)@ + le16(i16_bits(v)),
    {
        vec_write_i16_le(&mut self.buf, v)
    }

    /// Writes an `i32`, little-endian two's complement.
    pub fn write_i32(&mut self, v: i32) -> (r: std::io::Result<()>)
        ensures
            r is Ok,
            final(self)@ == old(self)@ + le32(i32_bits(v)),
    {
        vec_write_i32_le(&mut self.buf, v)
    }

    /// Writes a byte slice as it is.
    pub fn write_bytes(&mut self, data: &[u8]) -> (r: std::io::Result<()>)
        ensures
            r is Ok,
            final(self)@ == old(self)@ + data@,
    {
        let mut i: usize = 0;
        let ghost start = self.buf@;
        while i < data.len()
            invariant
                i <= data@.len(),
                self.buf@ == start + data@.take(i as int),
            decreases data.len() - i,
        {
            self.buf.push(data[i]);
            assert(data@.take(i + 1) == data@.take(i as int).push(data@[i as int]));
            i += 1;
        }
        assert(data@.take(data.len() as int) == data@);
        Ok(())
    }

    /// Writes an HWP string: the UTF-16 unit count as a `u16` (modulo 2^16),
    /// then each unit little-endian.
    pub fn write_hwp_string(&mut self, s: &str) -> (r: std::io::Result<()>)
        ensures
            r is Ok,
            final(self)@ == old(self)@ + hwp_string_bytes(s@),
    {
        let utf16 = encode_utf16(s);
        let count: u16 = (utf16.len() % 65536) as u16;
        let _ = self.write_u16(count);
        let ghost after_count = self.buf@;
        let mut i: usize = 0;
        while i < utf16.len()
            invariant
                i <= utf16@.len(),
                self.buf@ == after_count + units_le(utf16@.take(i as int)),
            decreases utf16.len() - i,
        {
            let _ = self.write_u16(utf16[i]);
            assert(utf16@.take(i + 1).drop_last() == utf16@.take(i as int));
            i += 1;
        }
        assert(utf16@.take(utf16.len() as int) == utf16@);
        Ok(())
    }

    /// Writes a ColorRef (`0x00BBGGRR`) as a little-endian `u32`.
    pub fn write_color_ref(&mut self, color: u32) -> (r: std::io::Result<()>)
        ensures
            r is Ok,
            final(self)@ == old(self)@ + le32(color),
    {
        self.write_u32(color)
    }

    /// Writes `count` zero bytes.
    pub fn write_zeros(&mut self, count: usize) -> (r: std::io::Result<()>)
        ensures
            r is Ok,
            final(self)@ == old(self)@ + Seq::new(count as nat, |_i: int| 0u8),
    {
        let ghost start = self.buf@;
        let mut i: usize = 0;
        while i < count
            invariant
                i <= count,
                self.buf@ == start + Seq::new(i as nat, |_i: int| 0u8),
            decreases count - i,
        {
            self.buf.push(0u8);
            assert(Seq::new((i + 1) as nat, |_i: int| 0u8) == Seq::new(i as nat, |_i: int| 0u8).push(
                0u8,
            ));
            i += 1;
        }
        Ok(())
    }

    /// The written bytes, taking the buffer.
    pub fn into_bytes(self) -> (v: Vec<u8>)
        ensures
            v@ == self@,
    {
        self.buf
    }

    /// The written bytes.
    pub fn as_bytes(&self) -> (v: &[u8])
        ensures
            v@ == self@,
    {
        self.buf.as_slice()
    }
}


/// The bytes written for an integer read back as it: little-endian, low
/// byte first, and signed values in two's complement.
pub proof fn law_integers_read_back(a: u16, b: u32, c: i8, d: i16, e: i32)
    ensures
        le16(a).len() == 2 && le16(a)[0] + le16(a)[1] * 256 == a,
        le32(b).len() == 4 && le32(b)[0] + le32(b)[1] * 256 + le32(b)[2] * 65536 + le32(b)[3] * 16777216 == b,
        (if i8_bits(c) >= 128 { i8_bits(c) - 256 } else { i8_bits(c) as int }) == c,
        (if i16_bits(d) >= 32768 { i16_bits(d) - 65536 } else { i16_bits(d) as int }) == d,
        (if i32_bits(e) >= 0x8000_0000 { i32_bits(e) - 0x1_0000_0000 } else { i32_bits(e) as int }) == e,
{
    assert((b % 256) + ((b / 256) % 256) * 256 + ((b / 65536) % 256) * 65536 + (b / 16777216) * 16777216 == b)
        by (bit_vector);
}

/// The UTF-16 units of a character decode back to it: one unit for a
/// character of the basic plane, else a high surrogate then a low one.
pub proof fn law_utf16_units_decode(ch: char)
    ensures
        ({
            let v = (ch as u32) as int;
            let u = utf16_units(ch);
            if v < 0x10000 {
                u.len() == 1 && u[0] == v
            } else {
                &&& u.len() == 2
                &&& 0xD800 <= u[0] < 0xDC00
                &&& 0xDC00 <= u[1] < 0xE000
                &&& 0x10000 + (u[0] - 0xD800) * 1024 + (u[1] - 0xDC00) == v
            }
        }),
{
    let v = (ch as u32) as int;
    assert(v <= 0x10FFFF);
    if v >= 0x10000 {
        assert(0 <= (v - 0x10000) / 1024 < 1024) by (nonlinear_arith)
            requires
                0x10000 <= v <= 0x10FFFF,
        ;
        assert((v - 0x10000) == ((v - 0x10000) / 1024) * 1024 + (v - 0x10000) % 1024) by (nonlinear_arith);
    }
}

} // verus!
