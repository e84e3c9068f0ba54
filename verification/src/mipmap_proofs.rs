//! What reading makes of a record that was written: the cues of the header
//! lead back to the scheme, and the payload back to the data.

use vstd::prelude::*;
use crate::bytes::{le16_at, le24_at, lemma_le_round_trip, u16_le, u24_le};
use crate::mipmap::{
    lemma_packed_is_payload, spec_block_of, spec_encode_error, spec_fixed_payload, spec_header,
    spec_is_empty, spec_mipmap_bytes,
    spec_payload_ok, spec_read_end, spec_read_mipmap, spec_read_record,
    spec_resolve_compression, spec_suggest_compression, spec_unpack, ChecksumPolicy,
    MipmapOutcome, MipmapView, PaaMipmapCompression, RecordView, Unpacked, PAYLOAD_LIMIT,
    SENTINEL_HEIGHT, SENTINEL_WIDTH,
};
use crate::paatype::PaaType;
use crate::rle::lemma_rle_round_trip;

verus! {

/// Whether `m` is written with the sentinel pair before its dimensions.
pub open spec fn spec_writes_sentinel(m: MipmapView) -> bool {
    m.compression == PaaMipmapCompression::Lzss && m.paatype == PaaType::IndexPalette
}

/// Whether the record of `m` with a payload of `payload_len` bytes carries
/// cues that lead a reader back to the scheme of `m`: its dimensions are not
/// mistaken for the sentinel pair, and the scheme is the one the cues
/// resolve to.
pub open spec fn spec_cues_faithful(m: MipmapView, payload_len: nat) -> bool {
    &&& spec_writes_sentinel(m) || !(m.width == SENTINEL_WIDTH && m.height == SENTINEL_HEIGHT)
    &&& spec_resolve_compression(
        m.paatype,
        spec_writes_sentinel(m),
        m.compression == PaaMipmapCompression::Lzo && m.paatype.spec_is_dxtn(),
        payload_len,
        m.data.len(),
    ) == m.compression
}

/// A record that was written is found again: for a mipmap that can be
/// serialized and is not empty, with a payload the length field can announce
/// and cues that are faithful, reading the written record for a container of
/// the mipmap's format finds the dimensions, the format, the scheme and the
/// payload that were written, and ends where the record ends. A mipmap
/// written with the sentinel pair is found for a container of any format.
pub proof fn lemma_record_round_trip(
    m: MipmapView,
    payload: Seq<u8>,
    rest: Seq<u8>,
    paatype: PaaType,
)
    requires
        spec_encode_error(m) is None,
        !spec_is_empty(m.width, m.height),
        payload.len() < PAYLOAD_LIMIT,
        spec_cues_faithful(m, payload.len()),
        paatype == m.paatype || spec_writes_sentinel(m),
    ensures
        spec_read_record(spec_mipmap_bytes(m, payload) + rest, 0, paatype) == Ok::<
            RecordView,
            crate::error::PaaError,
        >(
            RecordView {
                width: m.width,
                height: m.height,
                paatype: m.paatype,
                compression: m.compression,
                predicted: m.data.len(),
                payload,
                end: spec_mipmap_bytes(m, payload).len() as int,
            },
        ),
{
    let header = spec_header(m);
    let wire = spec_mipmap_bytes(m, payload);
    let data = wire + rest;
    let len_field = u24_le(payload.len() as u32);
    let sentinel = spec_writes_sentinel(m);
    let flagged = m.compression == PaaMipmapCompression::Lzo && m.paatype.spec_is_dxtn();
    lemma_le_round_trip(m.width as u32);
    lemma_le_round_trip(m.height as u32);
    lemma_le_round_trip((m.width + 0x8000) as u32);
    lemma_le_round_trip(SENTINEL_WIDTH as u32);
    lemma_le_round_trip(SENTINEL_HEIGHT as u32);
    lemma_le_round_trip(payload.len() as u32);
    assert(wire =~= header + len_field + payload);
    let at: int = if sentinel {
        8
    } else {
        4
    };
    assert(header.len() == at);
    assert(forall|i: int| 0 <= i < at ==> data[i] == header[i]);
    assert(forall|i: int| 0 <= i < 3 ==> data[at + i] == len_field[i]);
    if sentinel {
        assert(header =~= u16_le(SENTINEL_WIDTH) + u16_le(SENTINEL_HEIGHT) + u16_le(m.width)
            + u16_le(m.height));
        assert(le16_at(data, 0) == SENTINEL_WIDTH);
        assert(le16_at(data, 2) == SENTINEL_HEIGHT);
        assert(le16_at(data, 4) == m.width);
        assert(le16_at(data, 6) == m.height);
    } else if flagged {
        assert(header =~= u16_le((m.width + 0x8000) as u16) + u16_le(m.height));
        assert(le16_at(data, 0) == m.width + 0x8000);
        assert(le16_at(data, 2) == m.height);
    } else {
        assert(header =~= u16_le(m.width) + u16_le(m.height));
        assert(le16_at(data, 0) == m.width);
        assert(le16_at(data, 2) == m.height);
    }
    assert(le24_at(data, at) == payload.len());
    assert(data.subrange(at + 3, at + 3 + payload.len()) =~= payload);
    assert((m.width as nat) * (m.height as nat) <= 32767 * 32767) by (nonlinear_arith)
        requires
            m.width <= 32767,
            m.height <= 32767,
    ;
    assert(m.paatype.spec_predict_size(m.width, m.height) <= usize::MAX);
    assert(wire.len() == at + 3 + payload.len());
}

/// A payload that a mipmap may carry expands to the mipmap's data, under
/// either checksum policy.
pub proof fn lemma_payload_expands(
    compression: PaaMipmapCompression,
    data: Seq<u8>,
    payload: Seq<u8>,
    policy: ChecksumPolicy,
)
    requires
        spec_payload_ok(compression, data, payload),
    ensures
        spec_unpack(compression, payload, data.len(), policy) == Unpacked::Data(data),
{
    if compression == PaaMipmapCompression::RleBlocks {
        lemma_rle_round_trip(data);
    }
    if compression == PaaMipmapCompression::Lzss {
        lemma_packed_is_payload(data);
    }
}

/// Whether the scheme of `m` is one that the cues of a record can tell for
/// the format of `m`: the dictionary or the run-length codec for the indexed
/// format; stored data, the dictionary or the block codec for a
/// block-compressed format; stored data or the dictionary codec for the
/// others.
pub open spec fn spec_scheme_expressible(m: MipmapView) -> bool {
    if m.paatype == PaaType::IndexPalette {
        m.compression == PaaMipmapCompression::Lzss || m.compression
            == PaaMipmapCompression::RleBlocks
    } else if m.paatype.spec_is_dxtn() {
        m.compression != PaaMipmapCompression::RleBlocks
    } else {
        m.compression == PaaMipmapCompression::Uncompressed || m.compression
            == PaaMipmapCompression::Lzss
    }
}

/// Whether the sides of `m` are not mistaken for the sentinel pair.
pub open spec fn spec_sides_plain(m: MipmapView) -> bool {
    spec_writes_sentinel(m) || !(m.width == SENTINEL_WIDTH && m.height == SENTINEL_HEIGHT)
}

/// The cues of a record lead back to the scheme: for a mipmap whose scheme
/// the cues can tell and whose sides are not mistaken for the sentinel pair,
/// every payload the mipmap may carry makes the cues faithful.
pub proof fn lemma_payload_keeps_cues(m: MipmapView, payload: Seq<u8>)
    requires
        spec_encode_error(m) is None,
        spec_scheme_expressible(m),
        spec_sides_plain(m),
        spec_payload_ok(m.compression, m.data, payload),
    ensures
        spec_cues_faithful(m, payload.len()),
{
    if m.compression == PaaMipmapCompression::Lzss {
        lemma_packed_is_payload(m.data);
    }
}

/// A mipmap that was written is read back: under the conditions of
/// [`lemma_record_round_trip`], and with a payload that expands to the data
/// of the mipmap, reading the written record gives the mipmap back in
/// width, height, format, scheme and data.
pub proof fn lemma_mipmap_round_trip(
    m: MipmapView,
    payload: Seq<u8>,
    rest: Seq<u8>,
    paatype: PaaType,
    policy: ChecksumPolicy,
)
    requires
        spec_encode_error(m) is None,
        !spec_is_empty(m.width, m.height),
        payload.len() < PAYLOAD_LIMIT,
        spec_cues_faithful(m, payload.len()),
        paatype == m.paatype || spec_writes_sentinel(m),
        spec_unpack(m.compression, payload, m.data.len(), policy) == Unpacked::Data(m.data),
    ensures
        spec_read_mipmap(spec_mipmap_bytes(m, payload) + rest, 0, paatype, policy)
            == MipmapOutcome::Read(m),
        spec_read_end(spec_mipmap_bytes(m, payload) + rest, 0, paatype) == spec_mipmap_bytes(
            m,
            payload,
        ).len(),
{
    lemma_record_round_trip(m, payload, rest, paatype);
}

/// A mipmap that was written is read back as itself. For a mipmap that is
/// not empty, whose scheme the cues can tell and whose sides are not
/// mistaken for the sentinel pair, every record that serialization may give
/// is read, for a container of the mipmap's format, as the mipmap: the same
/// width, height, format, scheme and data, under either checksum policy.
pub proof fn lemma_block_reads_back(
    m: MipmapView,
    block: Seq<u8>,
    rest: Seq<u8>,
    paatype: PaaType,
    policy: ChecksumPolicy,
)
    requires
        spec_block_of(m, block),
        !spec_is_empty(m.width, m.height),
        spec_scheme_expressible(m),
        spec_sides_plain(m),
        paatype == m.paatype || spec_writes_sentinel(m),
    ensures
        spec_read_mipmap(block + rest, 0, paatype, policy) == MipmapOutcome::Read(m),
        spec_read_end(block + rest, 0, paatype) == block.len(),
{
    let p = match spec_fixed_payload(m.compression, m.data) {
        Some(q) => q,
        None => choose|p: Seq<u8>| #[trigger]
            spec_payload_ok(m.compression, m.data, p) && p.len() < PAYLOAD_LIMIT && block
                == spec_mipmap_bytes(m, p),
    };
    assert(spec_payload_ok(m.compression, m.data, p) && p.len() < PAYLOAD_LIMIT && block
        == spec_mipmap_bytes(m, p));
    lemma_payload_keeps_cues(m, p);
    lemma_payload_expands(m.compression, m.data, p, policy);
    lemma_mipmap_round_trip(m, p, rest, paatype, policy);
}

/// A mipmap that was read has the format of its container, or is an indexed
/// one that the sentinel pair announced.
pub proof fn lemma_read_keeps_format(
    data: Seq<u8>,
    pos: int,
    paatype: PaaType,
    policy: ChecksumPolicy,
)
    ensures
        match spec_read_mipmap(data, pos, paatype, policy) {
            MipmapOutcome::Read(m) => m.paatype == paatype || (m.paatype == PaaType::IndexPalette
                && m.compression == PaaMipmapCompression::Lzss),
            _ => true,
        },
{
}

/// A mipmap that was read has as much data as its format and sides predict,
/// unless the run-length codec expanded it, whose output is taken as it
/// comes.
pub proof fn lemma_read_data_is_as_predicted(
    data: Seq<u8>,
    pos: int,
    paatype: PaaType,
    policy: ChecksumPolicy,
)
    requires
        0 <= pos,
    ensures
        match spec_read_mipmap(data, pos, paatype, policy) {
            MipmapOutcome::Read(m) => m.compression != PaaMipmapCompression::RleBlocks
                && lzo_output_has_length(data, pos, paatype) ==> m.data.len()
                == m.paatype.spec_predict_size(m.width, m.height),
            _ => true,
        },
{
}

/// Whether the block codec, where the record at `pos` calls for it, gave as
/// many bytes as it was asked for, which the function that calls it states
/// of every result.
pub open spec fn lzo_output_has_length(data: Seq<u8>, pos: int, paatype: PaaType) -> bool {
    match spec_read_record(data, pos, paatype) {
        Ok(r) => match crate::lzo::lzo_decompressed(r.payload, r.predicted) {
            Some(d) => d.len() == r.predicted,
            None => true,
        },
        Err(_) => true,
    }
}

/// The scheme an encoder picks is found again by a reader: the scheme
/// suggested for a format and sides is one that the cues can tell, and so
/// every record written for a mipmap with that scheme, whose sides are not
/// mistaken for the sentinel pair, is read with that scheme.
pub proof fn lemma_suggested_scheme_is_found(m: MipmapView, payload: Seq<u8>, rest: Seq<u8>)
    requires
        spec_encode_error(m) is None,
        !spec_is_empty(m.width, m.height),
        m.compression == spec_suggest_compression(m.paatype, m.width, m.height),
        spec_sides_plain(m),
        spec_payload_ok(m.compression, m.data, payload),
        payload.len() < PAYLOAD_LIMIT,
    ensures
        spec_scheme_expressible(m),
        spec_cues_faithful(m, payload.len()),
        spec_read_record(spec_mipmap_bytes(m, payload) + rest, 0, m.paatype) is Ok,
        spec_read_record(spec_mipmap_bytes(m, payload) + rest, 0, m.paatype)->Ok_0.compression
            == m.compression,
{
    lemma_payload_keeps_cues(m, payload);
    lemma_record_round_trip(m, payload, rest, m.paatype);
}

} // verus!
