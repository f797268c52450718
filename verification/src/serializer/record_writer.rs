//! HWP record encoding, the reverse of reading a record stream.
//!
//! A record header is one little-endian `u32`:
//! - bits 0..=9: tag id
//! - bits 10..=19: level
//! - bits 20..=31: size; a size of 4095 or more stores `0xFFF` there and the real
//!   size follows as one more `u32`.

use crate::serializer::byte_writer::le32;
use vstd::prelude::*;

verus! {

/// One HWP record: tag, nesting level and payload.
pub struct Record {
    pub tag_id: u16,
    pub level: u16,
    pub data: Vec<u8>,
}

/// The size that a header records: the payload length modulo 2^32.
pub open spec fn record_size(data: Seq<u8>) -> u32 {
    (data.len() % 0x1_0000_0000) as u32
}

/// The header word of a record.
pub open spec fn record_header_word(tag_id: u16, level: u16, size: u32) -> u32 {
    let header_size: int = if size >= 0xFFF { 0xFFF } else { size as int };
    ((tag_id % 1024) + (level % 1024) * 1024 + header_size * 1048576) as u32
}

/// The encoded bytes of one record: header, the extended size if any, payload.
pub open spec fn record_bytes(tag_id: u16, level: u16, data: Seq<u8>) -> Seq<u8> {
    let size = record_size(data);
    le32(record_header_word(tag_id, level, size)) + (if size >= 0xFFF {
        le32(size)
    } else {
        Seq::empty()
    }) + data
}

/// The encoded bytes of a record stream, records in order.
pub open spec fn records_bytes(records: Seq<Record>) -> Seq<u8>
    decreases records.len(),
{
    if records.len() == 0 {
        Seq::empty()
    } else {
        records_bytes(records.drop_last()) + record_bytes(
            records.last().tag_id,
            records.last().level,
            records.last().data@,
        )
    }
}

fn push_le32(bytes: &mut Vec<u8>, v: u32)
    ensures
        final(bytes)@ == old(bytes)@ + le32(v),
{
    bytes.push((v % 256) as u8);
    bytes.push(((v / 256) % 256) as u8);
    bytes.push(((v / 65536) % 256) as u8);
    bytes.push((v / 16777216) as u8);
}

fn push_all(bytes: &mut Vec<u8>, data: &[u8])
    ensures
        final(bytes)@ == old(bytes)@ + data@,
{
    let ghost start = bytes@;
    let mut i: usize = 0;
    while i < data.len()
        invariant
            i <= data@.len(),
            bytes@ == start + data@.take(i as int),
        decreases data.len() - i,
    {
        bytes.push(data[i]);
        assert(data@.take(i + 1) == data@.take(i as int).push(data@[i as int]));
        i += 1;
    }
    assert(data@.take(data.len() as int) == data@);
}

/// Encodes one record: header, then the extended size when the payload is
/// 4095 bytes or more, then the payload.
pub fn write_record(tag_id: u16, level: u16, data: &[u8]) -> (bytes: Vec<u8>)
    ensures
        bytes@ == record_bytes(tag_id, level, data@),
{
    let size: u32 = (data.len() as u64 % 0x1_0000_0000u64) as u32;
    let extended = size >= 0xFFF;
    let header_size: u32 = if extended {
        0xFFF
    } else {
        size
    };
    let t: u32 = tag_id as u32;
    let l: u32 = level as u32;
    let header: u32 = (t & 0x3FF) | ((l & 0x3FF) << 10) | (header_size << 20);
    assert(header == ((t % 1024) + (l % 1024) * 1024 + header_size * 1048576) as u32)
        by (bit_vector)
        requires
            t < 65536,
            l < 65536,
            header_size <= 0xFFF,
            header == (t & 0x3FF) | ((l & 0x3FF) << 10) | (header_size << 20),
    ;
    let mut bytes: Vec<u8> = Vec::new();
    push_le32(&mut bytes, header);
    if extended {
        push_le32(&mut bytes, size);
    }
    push_all(&mut bytes, data);
    bytes
}

/// Encodes a `Record`.
pub fn write_record_from(record: &Record) -> (bytes: Vec<u8>)
    ensures
        bytes@ == record_bytes(record.tag_id, record.level, record.data@),
{
    write_record(record.tag_id, record.level, record.data.as_slice())
}

/// Encodes records one after another into one stream.
pub fn write_records(records: &[Record]) -> (bytes: Vec<u8>)
    ensures
        bytes@ == records_bytes(records@),
{
    let mut bytes: Vec<u8> = Vec::new();
    for i in 0..records.len()
        invariant
            bytes@ == records_bytes(records@.take(i as int)),
    {
        let one = write_record_from(&records[i]);
        assert(records@.take(i + 1).drop_last() == records@.take(i as int));
        push_all(&mut bytes, one.as_slice());
    }
    assert(records@.take(records.len() as int) == records@);
    bytes
}

/// The `u32` that four little-endian bytes hold.
pub open spec fn read_le32(b: Seq<u8>, at: int) -> int {
    b[at] + b[at + 1] * 256 + b[at + 2] * 65536 + b[at + 3] * 16777216
}

/// Reading a record back: tag id, level and payload, as a record reader
/// decodes the header (the payload runs to the end of `b`).
pub open spec fn read_record(b: Seq<u8>) -> (u16, u16, Seq<u8>) {
    let word = read_le32(b, 0);
    let tag = word % 1024;
    let level = (word / 1024) % 1024;
    let size_field = word / 1048576;
    if size_field == 0xFFF {
        (tag as u16, level as u16, b.subrange(8, 8 + read_le32(b, 4)))
    } else {
        (tag as u16, level as u16, b.subrange(4, 4 + size_field))
    }
}

proof fn lemma_le32_roundtrip(v: u32)
    ensures
        read_le32(le32(v), 0) == v,
{
    assert((v % 256) + ((v / 256) % 256) * 256 + ((v / 65536) % 256) * 65536 + (v / 16777216)
        * 16777216 == v) by (bit_vector);
}

proof fn lemma_word_fields(a: int, b: int, c: int)
    by (nonlinear_arith)
    requires
        0 <= a < 1024,
        0 <= b < 1024,
        0 <= c < 4096,
    ensures
        ((a + b * 1024 + c * 1048576) / 1024) % 1024 == b,
        (a + b * 1024 + c * 1048576) % 1024 == a,
        (a + b * 1024 + c * 1048576) / 1048576 == c,
{
}

proof fn lemma_read_le32_prefix(a: Seq<u8>, rest: Seq<u8>, at: int)
    requires
        0 <= at,
        at + 4 <= a.len(),
    ensures
        read_le32(a + rest, at) == read_le32(a, at),
{
    assert((a + rest)[at] == a[at]);
    assert((a + rest)[at + 1] == a[at + 1]);
    assert((a + rest)[at + 2] == a[at + 2]);
    assert((a + rest)[at + 3] == a[at + 3]);
}

proof fn lemma_header_fields(tag_id: u16, level: u16, size: u32)
    ensures
        ({
            let word = record_header_word(tag_id, level, size) as int;
            &&& word % 1024 == tag_id % 1024
            &&& (word / 1024) % 1024 == level % 1024
            &&& word / 1048576 == (if size >= 0xFFF { 0xFFF } else { size as int })
        }),
{
    let hs: int = if size >= 0xFFF { 0xFFF } else { size as int };
    lemma_word_fields((tag_id % 1024) as int, (level % 1024) as int, hs);
}

/// Reading an encoded record gives back its tag id and level (each modulo 1024)
/// and its payload, for every payload shorter than 2^32 bytes.
#[verifier::spinoff_prover]
#[verifier::rlimit(40)]
pub proof fn law_record_roundtrip(tag_id: u16, level: u16, data: Seq<u8>)
    requires
        data.len() < 0x1_0000_0000,
    ensures
        read_record(record_bytes(tag_id, level, data)) == (
            (tag_id % 1024) as u16,
            (level % 1024) as u16,
            data,
        ),
{
    let size = record_size(data);
    let word = record_header_word(tag_id, level, size);
    let ext: Seq<u8> = if size >= 0xFFF { le32(size) } else { Seq::empty() };
    let b = record_bytes(tag_id, level, data);
    assert(b == le32(word) + (ext + data));
    lemma_le32_roundtrip(word);
    lemma_read_le32_prefix(le32(word), ext + data, 0);
    lemma_header_fields(tag_id, level, size);
    assert(size as int == data.len());
    if size >= 0xFFF {
        lemma_le32_roundtrip(size);
        assert(b == (le32(word) + le32(size)) + data);
        lemma_read_le32_prefix(le32(word) + le32(size), data, 4);
        assert((le32(word) + le32(size)).subrange(4, 8) == le32(size));
        assert(read_le32(le32(word) + le32(size), 4) == read_le32(le32(size), 0));
        assert(b.subrange(8, 8 + size as int) =~= data);
    } else {
        assert(b.subrange(4, 4 + size as int) =~= data);
    }
}


/// The layout of an encoded record: the first little-endian `u32` holds the
/// tag id (modulo 1024) in bits 0..10, the level (modulo 1024) in bits
/// 10..20 and the payload size, capped at `0xFFF`, in bits 20..32; a capped
/// size is followed by the full size as a little-endian `u32`; the payload
/// ends the record.
#[verifier::spinoff_prover]
pub proof fn law_record_header_layout(tag_id: u16, level: u16, data: Seq<u8>)
    requires
        data.len() < 0x1_0000_0000,
    ensures
        ({
            let r = record_bytes(tag_id, level, data);
            let h = read_le32(r, 0);
            let ext: int = if data.len() >= 0xFFF { 4 } else { 0 };
            &&& h % 1024 == tag_id % 1024
            &&& (h / 1024) % 1024 == level % 1024
            &&& h / 1048576 == (if data.len() >= 0xFFF { 0xFFF } else { data.len() as int })
            &&& data.len() >= 0xFFF ==> r.subrange(4, 8) == le32(data.len() as u32)
            &&& r.len() == 4 + ext + data.len()
            &&& r.subrange(4 + ext, r.len() as int) == data
        }),
{
    let size = record_size(data);
    let word = record_header_word(tag_id, level, size);
    let ext: Seq<u8> = if size >= 0xFFF { le32(size) } else { Seq::empty() };
    let r = record_bytes(tag_id, level, data);
    assert(r == le32(word) + (ext + data));
    lemma_le32_roundtrip(word);
    lemma_read_le32_prefix(le32(word), ext + data, 0);
    lemma_header_fields(tag_id, level, size);
    assert(size as int == data.len());
    if size >= 0xFFF {
        assert(r.subrange(4, 8) =~= le32(size));
        assert(r.subrange(8, r.len() as int) =~= data);
    } else {
        assert(r.subrange(4, r.len() as int) =~= data);
    }
}

} // verus!
