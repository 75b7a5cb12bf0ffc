//! HAP frame decoding.
//!
//! A HAP packet is a section: a 24-bit little-endian size, a type byte, and the
//! payload. The high nibble of the type tells how the payload is stored: `A`
//! uncompressed, `B` one Snappy block, `C` a "complex" payload made of a
//! decode-instructions container followed by the frame data in chunks, each
//! chunk stored raw or as a Snappy block. The low nibble names the texture
//! format (`B` DXT1, `E` DXT5, `F` YCoCg DXT5), which decoding passes through.
use vstd::prelude::*;
use vstd::slice::slice_to_vec;

use crate::frameconv::snappy::{decompress_or_raw, snappy_or_raw};

verus! {

/// The 24-bit little-endian number in `s[i..i + 3]`.
pub open spec fn le24(s: Seq<u8>, i: int) -> int {
    s[i] + 256 * s[i + 1] + 65536 * s[i + 2]
}

/// The 32-bit little-endian number in `s[i..i + 4]`.
pub open spec fn le32(s: Seq<u8>, i: int) -> int {
    le24(s, i) + 16777216 * s[i + 3]
}

/// Section types whose payload is stored uncompressed.
pub open spec fn is_uncompressed_section(t: u8) -> bool {
    t == 0xAB || t == 0xAE || t == 0xAF
}

/// Section types whose payload is one Snappy block.
pub open spec fn is_snappy_section(t: u8) -> bool {
    t == 0xBB || t == 0xBE || t == 0xBF
}

/// Section types whose payload carries decode instructions and chunked data.
pub open spec fn is_complex_section(t: u8) -> bool {
    t == 0xCB || t == 0xCE || t == 0xCF
}

/// The payload of a packet of at least four bytes: the bytes after the
/// header, as many as the header announces, cut short at the packet's end.
pub open spec fn packet_payload(data: Seq<u8>) -> Seq<u8> {
    let avail = data.len() - 4;
    let size = le24(data, 0);
    data.subrange(4, 4 + if size < avail { size } else { avail })
}

/// The consecutive sections `(type, data)` at the start of `s`, up to the
/// first one that is truncated or to the end of `s`.
pub open spec fn spec_sections(s: Seq<u8>) -> Seq<(u8, Seq<u8>)>
    decreases s.len(),
{
    if s.len() < 4 {
        Seq::empty()
    } else {
        let size = le24(s, 0);
        if 4 + size > s.len() {
            Seq::empty()
        } else {
            seq![(s[3], s.subrange(4, 4 + size))] + spec_sections(s.subrange(4 + size, s.len() as int))
        }
    }
}

/// The data of the last section of type `t` in `secs`, if there is one.
pub open spec fn last_section_of_type(secs: Seq<(u8, Seq<u8>)>, t: u8) -> Option<Seq<u8>>
    decreases secs.len(),
{
    if secs.len() == 0 {
        None
    } else if secs.last().0 == t {
        Some(secs.last().1)
    } else {
        last_section_of_type(secs.drop_last(), t)
    }
}

/// The 32-bit little-endian words of `d`, one per four bytes.
pub open spec fn le32_words(d: Seq<u8>) -> Seq<u32> {
    Seq::new(d.len() / 4, |i: int| le32(d, 4 * i) as u32)
}

/// Section type of the per-chunk compressor table.
pub const COMPRESSOR_TABLE: u8 = 0x02;

/// Section type of the per-chunk size table.
pub const CHUNK_SIZE_TABLE: u8 = 0x03;

/// Section type of the decode-instructions container.
pub const INSTRUCTIONS_CONTAINER: u8 = 0x01;

/// Compressor code of a Snappy-compressed chunk.
pub const SNAPPY_CHUNK: u8 = 0x0B;

/// The compressor table: the last one given, else empty.
pub open spec fn compressor_table(secs: Seq<(u8, Seq<u8>)>) -> Seq<u8> {
    match last_section_of_type(secs, COMPRESSOR_TABLE) {
        Some(d) => d,
        None => Seq::empty(),
    }
}

/// The chunk size table: the words of the last one given, else empty.
pub open spec fn chunk_size_table(secs: Seq<(u8, Seq<u8>)>) -> Seq<u32> {
    match last_section_of_type(secs, CHUNK_SIZE_TABLE) {
        Some(d) => le32_words(d),
        None => Seq::empty(),
    }
}

/// Every chunk size table in `secs` is a whole number of 32-bit words.
pub open spec fn sections_decodable(secs: Seq<(u8, Seq<u8>)>) -> bool {
    forall|j: int|
        0 <= j < secs.len() && (#[trigger] secs[j]).0 == CHUNK_SIZE_TABLE ==> secs[j].1.len() % 4
            == 0
}

/// `data` starts with a complete decode-instructions container.
pub open spec fn has_instructions_container(data: Seq<u8>) -> bool {
    data.len() >= 4 && data[3] == INSTRUCTIONS_CONTAINER && 4 + le24(data, 0) <= data.len()
}

/// The sections inside the decode-instructions container.
pub open spec fn instruction_sections(data: Seq<u8>) -> Seq<(u8, Seq<u8>)> {
    spec_sections(data.subrange(4, 4 + le24(data, 0)))
}

/// The frame data that follows the decode-instructions container.
pub open spec fn instruction_frame_data(data: Seq<u8>) -> Seq<u8> {
    data.subrange(4 + le24(data, 0), data.len() as int)
}

/// A complex payload can be decoded: where it holds a decode-instructions
/// container, each chunk size table in it is a whole number of words.
pub open spec fn instructions_decodable(data: Seq<u8>) -> bool {
    has_instructions_container(data) ==> sections_decodable(instruction_sections(data))
}

/// A packet can be decoded: where it is a complex section, its payload can.
pub open spec fn hap_packet_decodable(data: Seq<u8>) -> bool {
    data.len() >= 4 && is_complex_section(data[3]) ==> instructions_decodable(
        packet_payload(data),
    )
}

/// Chunk `i`, stored as `chunk`, decoded according to the compressor table.
pub open spec fn spec_decode_chunk(compressors: Seq<u8>, i: int, chunk: Seq<u8>) -> Seq<u8> {
    if 0 <= i < compressors.len() && compressors[i] == SNAPPY_CHUNK {
        snappy_or_raw(chunk)
    } else {
        chunk
    }
}

/// The decoded chunks from chunk `i` on, the first of them starting at `off`
/// in `frame`; the chunks end at the first one that does not fit in `frame`.
pub open spec fn spec_assemble(
    frame: Seq<u8>,
    compressors: Seq<u8>,
    sizes: Seq<u32>,
    i: int,
    off: int,
) -> Seq<u8>
    decreases sizes.len() - i,
{
    if i < 0 || i >= sizes.len() || off < 0 || off + sizes[i] > frame.len() {
        Seq::empty()
    } else {
        spec_decode_chunk(compressors, i, frame.subrange(off, off + sizes[i])) + spec_assemble(
            frame,
            compressors,
            sizes,
            i + 1,
            off + sizes[i],
        )
    }
}

/// What a complex payload decodes to: with a decode-instructions container
/// and a non-empty chunk size table, the decoded chunks in order; with a
/// container and no chunk sizes, the frame data; without a container, the
/// payload unchanged.
pub open spec fn spec_decode_hap_instructions(data: Seq<u8>) -> Seq<u8> {
    if !has_instructions_container(data) {
        data
    } else {
        let secs = instruction_sections(data);
        let sizes = chunk_size_table(secs);
        if sizes.len() == 0 {
            instruction_frame_data(data)
        } else {
            spec_assemble(instruction_frame_data(data), compressor_table(secs), sizes, 0, 0)
        }
    }
}

/// What a packet decodes to: a packet shorter than a header is kept as it is;
/// otherwise the payload, Snappy-decompressed for a Snappy section, decoded by
/// its instructions for a complex section, and unchanged for any other type.
pub open spec fn spec_decode_hap_packet(data: Seq<u8>) -> Seq<u8> {
    if data.len() < 4 {
        data
    } else {
        let payload = packet_payload(data);
        let t = data[3];
        if is_snappy_section(t) {
            snappy_or_raw(payload)
        } else if is_complex_section(t) {
            spec_decode_hap_instructions(payload)
        } else {
            payload
        }
    }
}

/// Chunks that are not Snappy-compressed decode to themselves: the decoded
/// chunks are then the frame data from the first chunk's start up to the end
/// of the last chunk that fits, unchanged.
pub proof fn lemma_raw_chunks_are_frame_slice(
    frame: Seq<u8>,
    compressors: Seq<u8>,
    sizes: Seq<u32>,
    i: int,
    off: int,
)
    requires
        0 <= off <= frame.len(),
        forall|k: int| 0 <= k < compressors.len() ==> compressors[k] != SNAPPY_CHUNK,
    ensures
        ({
            let r = spec_assemble(frame, compressors, sizes, i, off);
            off + r.len() <= frame.len() && r == frame.subrange(off, off + r.len())
        }),
    decreases sizes.len() - i,
{
    if !(i < 0 || i >= sizes.len() || off + sizes[i] > frame.len()) {
        let end = off + sizes[i];
        lemma_raw_chunks_are_frame_slice(frame, compressors, sizes, i + 1, end);
        let rest = spec_assemble(frame, compressors, sizes, i + 1, end);
        assert(frame.subrange(off, end) + rest =~= frame.subrange(off, end + rest.len()));
    } else {
        assert(frame.subrange(off, off) =~= Seq::<u8>::empty());
    }
}

/// A later table replaces an earlier one: after one more section, the
/// compressor table is that section's data if it is a compressor table
/// (type `0x02`) and unchanged otherwise, and the chunk sizes are that
/// section's words if it is a chunk size table (type `0x03`) and unchanged
/// otherwise.
pub proof fn lemma_later_table_replaces_earlier(secs: Seq<(u8, Seq<u8>)>, t: u8, d: Seq<u8>)
    ensures
        compressor_table(secs.push((t, d))) == if t == 0x02u8 {
            d
        } else {
            compressor_table(secs)
        },
        t != 0x03u8 ==> chunk_size_table(secs.push((t, d))) == chunk_size_table(secs),
        t == 0x03u8 ==> chunk_size_table(secs.push((t, d))).len() == d.len() / 4,
{
    lemma_last_section_push(secs, (t, d), COMPRESSOR_TABLE);
    lemma_last_section_push(secs, (t, d), CHUNK_SIZE_TABLE);
}

/// How a packet's type byte decides its decoding: the payload is the bytes
/// after the 4-byte header, as many as its 24-bit little-endian size says but
/// no more than the packet holds; types `0xAB`, `0xAE`, `0xAF` give it as it
/// is, `0xBB`, `0xBE`, `0xBF` Snappy-decompress it, `0xCB`, `0xCE`, `0xCF`
/// decode its chunks, and any other type gives it as it is.
pub proof fn lemma_packet_type_decides_decoding(data: Seq<u8>)
    requires
        data.len() >= 4,
    ensures
        ({
            let size = data[0] as int + data[1] as int * 256 + data[2] as int * 65536;
            let end = if 4 + size < data.len() {
                4 + size
            } else {
                data.len() as int
            };
            let payload = data.subrange(4, end);
            let t = data[3];
            &&& (t == 0xBBu8 || t == 0xBEu8 || t == 0xBFu8) ==> spec_decode_hap_packet(data)
                == snappy_or_raw(payload)
            &&& (t == 0xCBu8 || t == 0xCEu8 || t == 0xCFu8) ==> spec_decode_hap_packet(data)
                == spec_decode_hap_instructions(payload)
            &&& !(t == 0xBBu8 || t == 0xBEu8 || t == 0xBFu8 || t == 0xCBu8 || t == 0xCEu8 || t
                == 0xCFu8) ==> spec_decode_hap_packet(data) == payload
        }),
{
}

/// The chunk size table is read as 32-bit little-endian words: entry `i` is
/// made of bytes `4 * i` to `4 * i + 3` of the last chunk size section, least
/// significant first; there is one entry per four bytes.
pub proof fn lemma_chunk_sizes_are_le32_words(secs: Seq<(u8, Seq<u8>)>, i: int)
    requires
        secs.len() > 0,
        secs.last().0 == 0x03u8,
        0 <= i < secs.last().1.len() / 4,
    ensures
        ({
            let d = secs.last().1;
            &&& chunk_size_table(secs).len() == d.len() / 4
            &&& chunk_size_table(secs)[i] as int == d[4 * i] as int + d[4 * i + 1] as int * 0x100
                + d[4 * i + 2] as int * 0x10000 + d[4 * i + 3] as int * 0x1000000
        }),
{
}

/// Where chunk `n` of a frame ends: the sum of the first `n` chunk sizes.
pub open spec fn chunk_end(sizes: Seq<u32>, n: int) -> int
    decreases n,
{
    if n <= 0 {
        0
    } else {
        chunk_end(sizes, n - 1) + sizes[n - 1]
    }
}

/// Chunk `i` of `frame` decoded: the bytes from the end of chunk `i - 1` to
/// the end of chunk `i`, Snappy-decompressed where the compressor table marks
/// the chunk with `0x0B`, and kept as they are otherwise.
pub open spec fn chunk_decoded(frame: Seq<u8>, compressors: Seq<u8>, sizes: Seq<u32>, i: int) -> Seq<u8> {
    let stored = frame.subrange(chunk_end(sizes, i), chunk_end(sizes, i + 1));
    if i < compressors.len() && compressors[i] == 0x0Bu8 {
        snappy_or_raw(stored)
    } else {
        stored
    }
}

/// Chunks decode in order, every chunk by its own compressor entry (the first
/// one included): when the first `n` chunks fit in the frame data, the
/// decoded frame starts with those `n` chunks decoded, one after the other;
/// and it is exactly them when chunk `n` is the last one or does not fit.
pub proof fn lemma_chunks_decode_in_order(
    frame: Seq<u8>,
    compressors: Seq<u8>,
    sizes: Seq<u32>,
    n: int,
)
    requires
        0 <= n <= sizes.len(),
        chunk_end(sizes, n) <= frame.len(),
    ensures
        spec_assemble(frame, compressors, sizes, 0, 0) == Seq::new(
            n as nat,
            |i: int| chunk_decoded(frame, compressors, sizes, i),
        ).flatten() + spec_assemble(frame, compressors, sizes, n, chunk_end(sizes, n)),
        (n == sizes.len() || chunk_end(sizes, n + 1) > frame.len()) ==> spec_assemble(
            frame,
            compressors,
            sizes,
            0,
            0,
        ) == Seq::new(n as nat, |i: int| chunk_decoded(frame, compressors, sizes, i)).flatten(),
    decreases n,
{
    let f = |i: int| chunk_decoded(frame, compressors, sizes, i);
    if n == 0 {
        assert(Seq::new(0nat, f) =~= Seq::<Seq<u8>>::empty());
        assert(Seq::<Seq<u8>>::empty().flatten() =~= Seq::<u8>::empty());
        assert(Seq::<u8>::empty() + spec_assemble(frame, compressors, sizes, 0, 0) =~= spec_assemble(
            frame,
            compressors,
            sizes,
            0,
            0,
        ));
    } else {
        lemma_chunk_end_monotone(sizes, n - 1, n);
        lemma_chunk_end_monotone(sizes, 0, n - 1);
        lemma_chunks_decode_in_order(frame, compressors, sizes, n - 1);
        let prev = Seq::new((n - 1) as nat, f);
        let start = chunk_end(sizes, n - 1);
        assert(Seq::new(n as nat, f) =~= prev.push(f(n - 1)));
        prev.lemma_flatten_push(f(n - 1));
        assert(chunk_end(sizes, n) == start + sizes[n - 1]);
        assert(spec_decode_chunk(compressors, n - 1, frame.subrange(start, start + sizes[n - 1])) == f(
            n - 1,
        ));
        assert(spec_assemble(frame, compressors, sizes, n - 1, start) == f(n - 1) + spec_assemble(
            frame,
            compressors,
            sizes,
            n,
            chunk_end(sizes, n),
        ));
        assert(prev.flatten() + (f(n - 1) + spec_assemble(frame, compressors, sizes, n, chunk_end(sizes, n)))
            =~= (prev.flatten() + f(n - 1)) + spec_assemble(frame, compressors, sizes, n, chunk_end(sizes, n)));
    }
    if n == sizes.len() || chunk_end(sizes, n + 1) > frame.len() {
        assert(spec_assemble(frame, compressors, sizes, n, chunk_end(sizes, n)) =~= Seq::<u8>::empty());
        let whole = Seq::new(n as nat, f).flatten();
        assert(whole + Seq::<u8>::empty() =~= whole);
    }
}

proof fn lemma_chunk_end_monotone(sizes: Seq<u32>, m: int, n: int)
    requires
        0 <= m <= n,
    ensures
        chunk_end(sizes, m) <= chunk_end(sizes, n),
    decreases n,
{
    if m < n {
        lemma_chunk_end_monotone(sizes, m, n - 1);
    }
}

fn read_le24(data: &[u8], i: usize) -> (r: usize)
    requires
        i + 3 <= data@.len(),
    ensures
        r == le24(data@, i as int),
        r < 0x1000000,
{
    data[i] as usize + data[i + 1] as usize * 256 + data[i + 2] as usize * 65536
}

fn read_le32(data: &[u8], i: usize) -> (r: u32)
    requires
        i + 4 <= data@.len(),
    ensures
        r == le32(data@, i as int),
{
    data[i] as u32 + data[i + 1] as u32 * 256 + data[i + 2] as u32 * 65536 + data[i + 3] as u32
        * 16777216
}

/// The 32-bit little-endian words of `d`.
pub fn read_le32_words(d: &[u8]) -> (res: Vec<u32>)
    requires
        d@.len() % 4 == 0,
    ensures
        res@ == le32_words(d@),
{
    let mut words: Vec<u32> = Vec::new();
    let mut k: usize = 0;
    while k < d.len()
        invariant
            d@.len() % 4 == 0,
            k <= d@.len(),
            k == 4 * words@.len(),
            forall|i: int| 0 <= i < words@.len() ==> words@[i] == le32(d@, 4 * i) as u32,
        decreases d@.len() - k,
    {
        let w = read_le32(d, k);
        words.push(w);
        k = k + 4;
    }
    assert(words@ =~= le32_words(d@));
    words
}

proof fn lemma_last_section_push(secs: Seq<(u8, Seq<u8>)>, s: (u8, Seq<u8>), t: u8)
    ensures
        last_section_of_type(secs.push(s), t) == if s.0 == t {
            Some(s.1)
        } else {
            last_section_of_type(secs, t)
        },
{
    assert(secs.push(s).drop_last() =~= secs);
}

/// Walks the sections of a decode-instructions container and returns its
/// compressor table and chunk size table, or `None` where a chunk size table
/// is not a whole number of words.
fn scan_instruction_sections(instructions: &[u8]) -> (res: Option<(Vec<u8>, Vec<u32>)>)
    ensures
        res is Some <==> sections_decodable(spec_sections(instructions@)),
        res matches Some((c, s)) ==> c@ == compressor_table(spec_sections(instructions@)) && s@
            == chunk_size_table(spec_sections(instructions@)),
{
    let ghost all = spec_sections(instructions@);
    let mut compressors: Vec<u8> = Vec::new();
    let mut chunk_sizes: Vec<u32> = Vec::new();
    let mut offset: usize = 0;
    let ghost mut seen: Seq<(u8, Seq<u8>)> = Seq::empty();
    assert(instructions@.subrange(0, instructions@.len() as int) =~= instructions@);
    while instructions.len() >= 4 && offset <= instructions.len() - 4
        invariant
            offset <= instructions@.len(),
            all == spec_sections(instructions@),
            all == seen + spec_sections(instructions@.subrange(offset as int, instructions@.len() as int)),
            sections_decodable(seen),
            compressors@ == compressor_table(seen),
            chunk_sizes@ == chunk_size_table(seen),
        ensures
            spec_sections(instructions@.subrange(offset as int, instructions@.len() as int)) =~= Seq::<(u8, Seq<u8>)>::empty(),
        decreases instructions@.len() - offset,
    {
        let ghost rest = instructions@.subrange(offset as int, instructions@.len() as int);
        let size = read_le24(instructions, offset);
        let section_type = instructions[offset + 3];
        assert(le24(rest, 0) == size);
        if size > instructions.len() - offset - 4 {
            break;
        }
        let section_data = &instructions[offset + 4..offset + 4 + size];
        let ghost next = instructions@.subrange(offset + 4 + size, instructions@.len() as int);
        proof {
            assert(rest.subrange(4, 4 + size) =~= section_data@);
            assert(rest.subrange(4 + size, rest.len() as int) =~= next);
            assert(spec_sections(rest) == seq![(section_type, section_data@)] + spec_sections(next));
            assert(all == seen.push((section_type, section_data@)) + spec_sections(next)) by {
                assert(seen + (seq![(section_type, section_data@)] + spec_sections(next))
                    =~= seen.push((section_type, section_data@)) + spec_sections(next));
            }
            lemma_last_section_push(seen, (section_type, section_data@), COMPRESSOR_TABLE);
            lemma_last_section_push(seen, (section_type, section_data@), CHUNK_SIZE_TABLE);
        }
        if section_type == CHUNK_SIZE_TABLE && section_data.len() % 4 != 0 {
            proof {
                assert(all[seen.len() as int] == (section_type, section_data@));
            }
            return None;
        }
        if section_type == COMPRESSOR_TABLE {
            compressors = slice_to_vec(section_data);
        } else if section_type == CHUNK_SIZE_TABLE {
            chunk_sizes = read_le32_words(section_data);
        }
        proof {
            let pushed = seen.push((section_type, section_data@));
            assert forall|j: int|
                0 <= j < pushed.len() && (#[trigger] pushed[j]).0 == CHUNK_SIZE_TABLE implies pushed[j].1.len() % 4 == 0 by {
                if j < seen.len() {
                    assert(pushed[j] == seen[j]);
                }
            }
            seen = pushed;
        }
        offset = offset + 4 + size;
    }
    assert(all =~= seen);
    Some((compressors, chunk_sizes))
}

/// Decodes the chunks of `frame` in order, each by its compressor, up to the
/// first chunk that does not fit.
fn assemble_chunks(frame: &[u8], compressors: &Vec<u8>, chunk_sizes: &Vec<u32>) -> (res: Vec<u8>)
    ensures
        res@ == spec_assemble(frame@, compressors@, chunk_sizes@, 0, 0),
{
    let ghost total = spec_assemble(frame@, compressors@, chunk_sizes@, 0, 0);
    let mut result: Vec<u8> = Vec::new();
    let mut chunk_offset: usize = 0;
    let mut i: usize = 0;
    assert(result@ + total =~= total);
    while i < chunk_sizes.len()
        invariant
            i <= chunk_sizes@.len(),
            chunk_offset <= frame@.len(),
            total == spec_assemble(frame@, compressors@, chunk_sizes@, 0, 0),
            result@ + spec_assemble(frame@, compressors@, chunk_sizes@, i as int, chunk_offset as int)
                == total,
        ensures
            result@ == total,
        decreases chunk_sizes@.len() - i,
    {
        let chunk_size = chunk_sizes[i] as usize;
        if chunk_size > frame.len() - chunk_offset {
            assert(result@ + Seq::<u8>::empty() =~= result@);
            break;
        }
        let end = chunk_offset + chunk_size;
        let chunk = &frame[chunk_offset..end];
        let mut decompressed = if i < compressors.len() && compressors[i] == SNAPPY_CHUNK {
            decompress_or_raw(chunk)
        } else {
            slice_to_vec(chunk)
        };
        let ghost prev = result@;
        let ghost rest = spec_assemble(frame@, compressors@, chunk_sizes@, i + 1, end as int);
        assert(decompressed@ == spec_decode_chunk(compressors@, i as int, chunk@));
        result.append(&mut decompressed);
        assert(prev + (spec_decode_chunk(compressors@, i as int, chunk@) + rest) =~= result@ + rest);
        chunk_offset = end;
        i = i + 1;
    }
    if i >= chunk_sizes.len() {
        assert(result@ + Seq::<u8>::empty() =~= result@);
    }
    result
}

/// Decodes a complex payload, or returns `None` where a chunk size table in it
/// is not a whole number of words.
fn decode_instructions_checked(data: &[u8]) -> (res: Option<Vec<u8>>)
    ensures
        res is Some <==> instructions_decodable(data@),
        res matches Some(v) ==> v@ == spec_decode_hap_instructions(data@),
{
    if data.len() < 4 {
        return Some(slice_to_vec(data));
    }
    let inner_size = read_le24(data, 0);
    let inner_type = data[3];
    if inner_type != INSTRUCTIONS_CONTAINER {
        return Some(slice_to_vec(data));
    }
    if inner_size > data.len() - 4 {
        return Some(slice_to_vec(data));
    }
    let instructions_end = 4 + inner_size;
    let instructions = &data[4..instructions_end];
    let frame_data = &data[instructions_end..data.len()];
    match scan_instruction_sections(instructions) {
        None => None,
        Some((compressors, chunk_sizes)) => {
            if chunk_sizes.len() == 0 {
                Some(slice_to_vec(frame_data))
            } else {
                Some(assemble_chunks(frame_data, &compressors, &chunk_sizes))
            }
        },
    }
}

/// Decodes the payload of a complex section: reads the compressor and chunk
/// size tables from the decode-instructions container, then decodes the
/// chunks of the frame data that follows. A payload without a complete
/// container is returned unchanged, and frame data without chunk sizes is
/// returned as it is.
pub fn decode_hap_instructions(data: &[u8]) -> (res: Vec<u8>)
    requires
        instructions_decodable(data@),
    ensures
        res@ == spec_decode_hap_instructions(data@),
{
    match decode_instructions_checked(data) {
        Some(v) => v,
        None => Vec::new(),
    }
}

/// Decodes a packet, or returns `None` where it is a complex section whose
/// payload cannot be decoded.
fn decode_packet_checked(data: &[u8]) -> (res: Option<Vec<u8>>)
    ensures
        res is Some <==> hap_packet_decodable(data@),
        res matches Some(v) ==> v@ == spec_decode_hap_packet(data@),
{
    if data.len() < 4 {
        return Some(slice_to_vec(data));
    }
    let section_size = read_le24(data, 0);
    let section_type = data[3];
    let avail = data.len() - 4;
    let take = if section_size < avail {
        section_size
    } else {
        avail
    };
    let payload = &data[4..4 + take];
    assert(payload@ == packet_payload(data@));
    match section_type {
        0xAB | 0xAE | 0xAF => Some(slice_to_vec(payload)),
        0xBB | 0xBE | 0xBF => Some(decompress_or_raw(payload)),
        0xCB | 0xCE | 0xCF => decode_instructions_checked(payload),
        _ => Some(slice_to_vec(payload)),
    }
}

/// Decodes one HAP packet into texture data.
pub fn decode_hap_packet(data: &[u8]) -> (res: Vec<u8>)
    requires
        hap_packet_decodable(data@),
    ensures
        res@ == spec_decode_hap_packet(data@),
        data@.len() < 4 ==> res@ == data@,
        data@.len() >= 4 && is_uncompressed_section(data@[3]) ==> res@ == packet_payload(data@),
{
    match decode_packet_checked(data) {
        Some(v) => v,
        None => Vec::new(),
    }
}

/// Decodes one HAP packet into texture data, or returns `None` where the
/// packet is a complex section with a chunk size table that is not a whole
/// number of 32-bit words.
pub fn try_decode_hap_packet(data: &[u8]) -> (res: Option<Vec<u8>>)
    ensures
        res is Some <==> hap_packet_decodable(data@),
        res matches Some(v) ==> v@ == spec_decode_hap_packet(data@),
{
    decode_packet_checked(data)
}

} // verus!
