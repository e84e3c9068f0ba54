//! One mipmap record: its header with the cues that reveal the compression
//! scheme, its payload, and the four schemes themselves.

use vstd::prelude::*;
use vstd::string::StringExecFns;
use crate::bytes::{
    as_unsigned, le16_at, le24_at, push_u16_le, push_u24_le, read_i32_le, u16_le, u24_le, u32_le,
    write_i32_le, PaaReader,
};
use crate::error::{PaaError, PaaResult};
use crate::lzo::{lzo_compress, lzo_decompress, lzo_decompressed};
use crate::lzss::{
    additive_checksum, lzss_decode, lzss_encode, lzss_encode_literals, spec_additive_checksum,
    spec_lzss_decode, spec_lzss_encode, spec_lzss_literals,
};
use crate::lzss_proofs::{lemma_encoded_expands, lemma_literals_expand};
use crate::paatype::PaaType;
use crate::rle::{rle_decode, rle_encode, spec_rle_decode, spec_rle_encode};

verus! {

/// Width field that, with [`SENTINEL_HEIGHT`], announces an indexed mipmap
/// whose true dimensions follow.
pub const SENTINEL_WIDTH: u16 = 1234;

/// Height field that, with [`SENTINEL_WIDTH`], announces an indexed mipmap
/// whose true dimensions follow.
pub const SENTINEL_HEIGHT: u16 = 8765;

/// Bit of the width field that marks a block-compressed payload as packed.
pub const WIDTH_FLAG: u16 = 0x8000;

/// One more than the longest payload the 24-bit length field can announce.
pub const PAYLOAD_LIMIT: usize = 0x100_0000;

/// The scheme that packs the data of one mipmap.
#[derive(Debug, Clone, Copy, PartialEq, Eq, Structural)]
pub enum PaaMipmapCompression {
    /// The data is stored as it is.
    Uncompressed,
    /// The block codec, for block-compressed formats.
    Lzo,
    /// The dictionary codec with its checksum trailer.
    Lzss,
    /// The run-length codec, for legacy indexed data.
    RleBlocks,
}

/// What to do when the checksum stored after a dictionary stream differs
/// from the one computed over the expanded data.
#[derive(Debug, Clone, Copy, PartialEq, Eq, Structural)]
pub enum ChecksumPolicy {
    /// Accept the data. Files found in the wild carry checksums that do not
    /// match, so this is what the plain readers do.
    Lenient,
    /// Reject the mipmap with `LzssWrongChecksum`.
    Strict,
}

/// One resolution level of a texture.
#[derive(Debug, PartialEq, Eq)]
pub struct PaaMipmap {
    /// Width in pixels, below 32768.
    pub width: u16,
    /// Height in pixels, below 32768.
    pub height: u16,
    /// Format of `data`.
    pub paatype: PaaType,
    /// Scheme used when the mipmap is serialized.
    pub compression: PaaMipmapCompression,
    /// Uncompressed pixel data.
    pub data: Vec<u8>,
}

/// The mathematical content of a [`PaaMipmap`].
pub struct MipmapView {
    pub width: u16,
    pub height: u16,
    pub paatype: PaaType,
    pub compression: PaaMipmapCompression,
    pub data: Seq<u8>,
}

impl View for PaaMipmap {
    type V = MipmapView;

    open spec fn view(&self) -> MipmapView {
        MipmapView {
            width: self.width,
            height: self.height,
            paatype: self.paatype,
            compression: self.compression,
            data: self.data@,
        }
    }
}

/// A mipmap record as found in the input, before its payload is expanded.
#[derive(Debug, PartialEq, Eq)]
pub struct MipmapRecord {
    /// Width in pixels, with the flag bit cleared.
    pub width: u16,
    /// Height in pixels.
    pub height: u16,
    /// Format of the expanded data.
    pub paatype: PaaType,
    /// Scheme the cues of the header point to.
    pub compression: PaaMipmapCompression,
    /// Size the expanded data is expected to have.
    pub predicted: usize,
    /// The payload as stored.
    pub payload: Vec<u8>,
}

/// The mathematical content of a [`MipmapRecord`], with the position at
/// which the record ends.
pub struct RecordView {
    pub width: u16,
    pub height: u16,
    pub paatype: PaaType,
    pub compression: PaaMipmapCompression,
    pub predicted: nat,
    pub payload: Seq<u8>,
    pub end: int,
}

/// Outcome of expanding a payload.
pub enum Unpacked {
    /// The expanded data.
    Data(Seq<u8>),
    /// A failure of this crate's own checks.
    Failed(PaaError),
    /// A failure reported by the block codec, whose text is its own.
    LzoFailed,
}

/// Outcome of reading one mipmap.
pub enum MipmapOutcome {
    /// The mipmap read.
    Read(MipmapView),
    /// A failure of this crate's own checks.
    Failed(PaaError),
    /// A failure reported by the block codec, whose text is its own.
    LzoFailed,
}

/// Whether `slot` holds what `outcome` describes.
pub open spec fn slot_matches(slot: PaaResult<PaaMipmap>, outcome: MipmapOutcome) -> bool {
    match outcome {
        MipmapOutcome::Read(m) => slot is Ok && slot->Ok_0@ == m,
        MipmapOutcome::Failed(e) => slot == Err::<PaaMipmap, PaaError>(e),
        MipmapOutcome::LzoFailed => slot is Err && slot->Err_0 is LzoError,
    }
}

/// Whether each slot holds what the outcome at its index describes.
pub open spec fn slots_match(slots: Seq<PaaResult<PaaMipmap>>, outcomes: Seq<MipmapOutcome>) -> bool {
    slots.len() == outcomes.len() && forall|i: int|
        0 <= i < slots.len() ==> slot_matches(#[trigger] slots[i], outcomes[i])
}

/// A side of a block-compressed mipmap that can be serialized: a power of
/// two of at least 4, below 32768.
pub open spec fn spec_block_side(d: u16) -> bool {
    d == 4 || d == 8 || d == 16 || d == 32 || d == 64 || d == 128 || d == 256 || d == 512 || d
        == 1024 || d == 2048 || d == 4096 || d == 8192 || d == 16384
}

pub open spec fn spec_is_empty(width: u16, height: u16) -> bool {
    width == 0 || height == 0
}

pub open spec fn spec_dxtn_needs_lzo(width: u16, height: u16) -> bool {
    width as int * height as int >= 65536
}

/// The scheme an encoder picks for a format and dimensions.
pub open spec fn spec_suggest_compression(
    paatype: PaaType,
    width: u16,
    height: u16,
) -> PaaMipmapCompression {
    if paatype.spec_is_dxtn() {
        if spec_dxtn_needs_lzo(width, height) {
            PaaMipmapCompression::Lzo
        } else {
            PaaMipmapCompression::Uncompressed
        }
    } else {
        PaaMipmapCompression::Lzss
    }
}

/// The scheme the cues of a header point to: `paatype` is the format after
/// the sentinel rule, `sentinel` whether the sentinel pair was found,
/// `flagged` whether the width field of a block format had its top bit set.
pub open spec fn spec_resolve_compression(
    paatype: PaaType,
    sentinel: bool,
    flagged: bool,
    payload_len: nat,
    predicted: nat,
) -> PaaMipmapCompression {
    if sentinel {
        PaaMipmapCompression::Lzss
    } else if paatype == PaaType::IndexPalette {
        PaaMipmapCompression::RleBlocks
    } else if flagged && paatype.spec_is_dxtn() {
        PaaMipmapCompression::Lzo
    } else if payload_len != predicted {
        PaaMipmapCompression::Lzss
    } else {
        PaaMipmapCompression::Uncompressed
    }
}

/// The reason a mipmap cannot be serialized, if there is one.
pub open spec fn spec_encode_error(m: MipmapView) -> Option<PaaError> {
    if m.width >= 32768 || m.height >= 32768 {
        Some(PaaError::MipmapTooLarge)
    } else if m.paatype.spec_is_dxtn() && !(spec_block_side(m.width) && spec_block_side(m.height)) {
        Some(PaaError::UnexpectedMipmapDimensions)
    } else if m.paatype.spec_predict_size(m.width, m.height) != m.data.len() {
        Some(PaaError::UnexpectedMipmapDataSize(m.width, m.height, m.data.len() as usize))
    } else {
        None
    }
}

/// The dimension fields that open the record of `m`.
pub open spec fn spec_header(m: MipmapView) -> Seq<u8> {
    if spec_is_empty(m.width, m.height) {
        u16_le(m.width) + u16_le(m.height)
    } else if m.compression == PaaMipmapCompression::Lzss && m.paatype == PaaType::IndexPalette {
        u16_le(SENTINEL_WIDTH) + u16_le(SENTINEL_HEIGHT) + u16_le(m.width) + u16_le(m.height)
    } else if m.compression == PaaMipmapCompression::Lzo && m.paatype.spec_is_dxtn() {
        u16_le((m.width + 0x8000) as u16) + u16_le(m.height)
    } else {
        u16_le(m.width) + u16_le(m.height)
    }
}

/// The record of `m` with `payload` as its packed data.
pub open spec fn spec_mipmap_bytes(m: MipmapView, payload: Seq<u8>) -> Seq<u8> {
    if spec_is_empty(m.width, m.height) {
        spec_header(m)
    } else {
        spec_header(m) + u24_le(payload.len() as u32) + payload
    }
}

/// The record of `m` with `payload`, or the error for a width that has the
/// flag bit set or a payload the length field cannot announce.
pub open spec fn spec_framed(m: MipmapView, payload: Seq<u8>) -> Result<Seq<u8>, PaaError> {
    if m.width >= 32768 || (!spec_is_empty(m.width, m.height) && payload.len() >= PAYLOAD_LIMIT) {
        Err(PaaError::MipmapTooLarge)
    } else {
        Ok(spec_mipmap_bytes(m, payload))
    }
}

/// The bytes of a result, where it has any.
pub open spec fn bytes_of(res: PaaResult<Vec<u8>>) -> Result<Seq<u8>, PaaError> {
    match res {
        Ok(v) => Ok(v@),
        Err(e) => Err(e),
    }
}

/// The payload of the dictionary codec for `data`: the stream the encoder
/// makes of `data`, or the stream of literals alone where the first with its
/// checksum would be exactly as long as `data`; then the checksum of `data`.
pub open spec fn spec_lzss_packed(data: Seq<u8>) -> Seq<u8> {
    let stream = spec_lzss_encode(data);
    (if stream.len() + 4 == data.len() {
        spec_lzss_literals(data)
    } else {
        stream
    }) + u32_le(as_unsigned(spec_additive_checksum(data)))
}

/// What holds of the payload of the dictionary codec for `data`: it is a
/// dictionary stream that expands to `data`, followed by the checksum of
/// `data`, the whole of another length than `data`, so that a reader does
/// not take it for stored data, and at most an eighth and five bytes longer.
pub open spec fn spec_lzss_payload(data: Seq<u8>, payload: Seq<u8>) -> bool {
    &&& payload.len() >= 4
    &&& payload.len() != data.len()
    &&& payload.len() <= data.len() + data.len() / 8 + 5
    &&& spec_lzss_decode(payload.take(payload.len() - 4)) == Some(data)
    &&& payload.skip(payload.len() - 4) == u32_le(as_unsigned(spec_additive_checksum(data)))
}

/// The payload of the dictionary codec expands to the data, carries their
/// checksum and is never as long as the data.
pub proof fn lemma_packed_is_payload(data: Seq<u8>)
    ensures
        spec_lzss_payload(data, spec_lzss_packed(data)),
{
    lemma_encoded_expands(data);
    lemma_literals_expand(data);
    let first = spec_lzss_encode(data);
    let stream = if first.len() + 4 == data.len() {
        spec_lzss_literals(data)
    } else {
        first
    };
    let trailer = u32_le(as_unsigned(spec_additive_checksum(data)));
    let payload = spec_lzss_packed(data);
    assert(payload == stream + trailer);
    assert(trailer.len() == 4);
    assert(payload.take(payload.len() - 4) =~= stream);
    assert(payload.skip(payload.len() - 4) =~= trailer);
}

/// The payload of a mipmap with this scheme and data, for the three schemes
/// that this crate computes itself; none for the block codec, whose output
/// is its own.
pub open spec fn spec_fixed_payload(compression: PaaMipmapCompression, data: Seq<u8>) -> Option<
    Seq<u8>,
> {
    match compression {
        PaaMipmapCompression::Uncompressed => Some(data),
        PaaMipmapCompression::RleBlocks => Some(spec_rle_encode(data)),
        PaaMipmapCompression::Lzss => Some(spec_lzss_packed(data)),
        PaaMipmapCompression::Lzo => None,
    }
}

/// What serializing `m` gives, where that is settled without the block
/// codec: the reason `m` cannot be serialized; else the dimension fields
/// alone for an empty mipmap; else the record with the payload of the
/// mipmap's scheme, or `MipmapTooLarge` where that payload is too long for
/// the length field. None where the block codec packs the data.
pub open spec fn spec_record(m: MipmapView) -> Option<Result<Seq<u8>, PaaError>> {
    match spec_encode_error(m) {
        Some(e) => Some(Err(e)),
        None => if spec_is_empty(m.width, m.height) {
            Some(Ok(spec_header(m)))
        } else {
            match spec_fixed_payload(m.compression, m.data) {
                Some(p) => Some(spec_framed(m, p)),
                None => None,
            }
        },
    }
}

/// Whether `payload` is what the record of a mipmap with this scheme and
/// data carries: the payload of the scheme, and for the block codec, of
/// whose output no more is known, a block that expands to the data.
pub open spec fn spec_payload_ok(
    compression: PaaMipmapCompression,
    data: Seq<u8>,
    payload: Seq<u8>,
) -> bool {
    match compression {
        PaaMipmapCompression::Uncompressed => payload == data,
        PaaMipmapCompression::RleBlocks => payload == spec_rle_encode(data),
        PaaMipmapCompression::Lzss => payload == spec_lzss_packed(data),
        PaaMipmapCompression::Lzo => lzo_decompressed(payload, data.len()) == Some(data),
    }
}

/// Whether the payload of a mipmap with this scheme and data fits the
/// length field. Where the block codec makes the payload nothing is sure.
pub open spec fn spec_payload_fits(compression: PaaMipmapCompression, data: Seq<u8>) -> bool {
    match spec_fixed_payload(compression, data) {
        Some(p) => p.len() < PAYLOAD_LIMIT,
        None => false,
    }
}

/// Whether a mipmap is sure to be serialized: it can be, and it is empty or
/// its payload fits the length field, which no payload of the block codec
/// is sure to do.
pub open spec fn spec_serializes(m: MipmapView) -> bool {
    spec_encode_error(m) is None && (spec_is_empty(m.width, m.height) || spec_payload_fits(
        m.compression,
        m.data,
    ))
}

/// Whether `f` is an error that serializing `m` can end in: the reason `m`
/// cannot be serialized; else, for a mipmap that is not sure to be,
/// `MipmapTooLarge` or, with the block codec, an error of that codec.
pub open spec fn spec_serialize_failure(m: MipmapView, f: PaaError) -> bool {
    match spec_encode_error(m) {
        Some(e) => f == e,
        None => !spec_serializes(m) && (f == PaaError::MipmapTooLarge || (m.compression
            == PaaMipmapCompression::Lzo && f is LzoError)),
    }
}

/// Whether `block` is the record of `m`: what serializing `m` gives where
/// that is settled; and where the block codec packs the data, the dimension
/// fields with the length and the bytes of a block that expands to the data.
pub open spec fn spec_block_of(m: MipmapView, block: Seq<u8>) -> bool {
    match spec_record(m) {
        Some(r) => r == Ok::<Seq<u8>, PaaError>(block),
        None => exists|p: Seq<u8>| #[trigger]
            spec_payload_ok(m.compression, m.data, p) && p.len() < PAYLOAD_LIMIT && block
                == spec_mipmap_bytes(m, p),
    }
}

/// Whether `res` is what serializing `m` gives: what is settled without the
/// block codec; and where the block codec packs the data, a record of `m`,
/// or an error of the block codec, or `MipmapTooLarge` where the data or the
/// block are too long.
pub open spec fn spec_serialized(m: MipmapView, res: PaaResult<Vec<u8>>) -> bool {
    match spec_record(m) {
        Some(r) => bytes_of(res) == r,
        None => match res {
            Ok(bytes) => spec_block_of(m, bytes@),
            Err(e) => e is LzoError || e == PaaError::MipmapTooLarge,
        },
    }
}

/// What follows for a result of serializing `m`: a record of `m`, or an
/// error that serializing `m` can end in; and a record where `m` is sure to
/// be serialized.
pub proof fn lemma_serialized(m: MipmapView, res: PaaResult<Vec<u8>>)
    requires
        spec_serialized(m, res),
    ensures
        res is Ok ==> spec_block_of(m, res->Ok_0@),
        res is Err ==> spec_serialize_failure(m, res->Err_0),
        spec_serializes(m) ==> res is Ok,
{
}

/// The record that starts at `pos` in `data`, read for a container of format
/// `paatype`, or the reason there is none.
pub open spec fn spec_read_record(data: Seq<u8>, pos: int, paatype: PaaType) -> Result<
    RecordView,
    PaaError,
> {
    if pos + 4 > data.len() {
        Err(PaaError::UnexpectedEof)
    } else if spec_is_empty(le16_at(data, pos), le16_at(data, pos + 2)) {
        Err(PaaError::EmptyMipmap)
    } else {
        let sentinel = le16_at(data, pos) == SENTINEL_WIDTH && le16_at(data, pos + 2)
            == SENTINEL_HEIGHT;
        if sentinel && pos + 8 > data.len() {
            Err(PaaError::UnexpectedEof)
        } else {
            let at = if sentinel {
                pos + 8
            } else {
                pos + 4
            };
            let format = if sentinel {
                PaaType::IndexPalette
            } else {
                paatype
            };
            let raw_width = le16_at(data, at - 4);
            let height = le16_at(data, at - 2);
            let flagged = raw_width >= 0x8000 && format.spec_is_dxtn();
            let width = if flagged {
                (raw_width - 0x8000) as u16
            } else {
                raw_width
            };
            let predicted = format.spec_predict_size(width, height);
            if predicted > usize::MAX {
                Err(PaaError::ArithmeticOverflow)
            } else if at + 3 > data.len() {
                Err(PaaError::UnexpectedEof)
            } else {
                let payload_len = le24_at(data, at) as int;
                if at + 3 + payload_len > data.len() {
                    Err(PaaError::UnexpectedEof)
                } else {
                    Ok(
                        RecordView {
                            width,
                            height,
                            paatype: format,
                            compression: spec_resolve_compression(
                                format,
                                sentinel,
                                flagged,
                                payload_len as nat,
                                predicted,
                            ),
                            predicted,
                            payload: data.subrange(at + 3, at + 3 + payload_len),
                            end: at + 3 + payload_len,
                        },
                    )
                }
            }
        }
    }
}

/// What the payload of a record expands to under a scheme and a checksum
/// policy.
pub open spec fn spec_unpack(
    compression: PaaMipmapCompression,
    payload: Seq<u8>,
    predicted: nat,
    policy: ChecksumPolicy,
) -> Unpacked {
    match compression {
        PaaMipmapCompression::Uncompressed => Unpacked::Data(payload),
        PaaMipmapCompression::Lzo => match lzo_decompressed(payload, predicted) {
            Some(d) => Unpacked::Data(d),
            None => Unpacked::LzoFailed,
        },
        PaaMipmapCompression::RleBlocks => match spec_rle_decode(payload) {
            Some(d) => Unpacked::Data(d),
            None => Unpacked::Failed(PaaError::RleError),
        },
        PaaMipmapCompression::Lzss => if payload.len() < 4 {
            Unpacked::Failed(PaaError::ArithmeticOverflow)
        } else {
            match spec_lzss_decode(payload.take(payload.len() - 4)) {
                None => Unpacked::Failed(PaaError::LzssDecompressError),
                Some(d) => if d.len() != predicted {
                    Unpacked::Failed(PaaError::LzssDecompressError)
                } else if policy == ChecksumPolicy::Strict && u32_le(
                    as_unsigned(spec_additive_checksum(d)),
                ) != payload.skip(payload.len() - 4) {
                    Unpacked::Failed(PaaError::LzssWrongChecksum)
                } else {
                    Unpacked::Data(d)
                },
            }
        },
    }
}

/// The mipmap a record stands for under a checksum policy.
pub open spec fn spec_mipmap_of_record(r: RecordView, policy: ChecksumPolicy) -> MipmapOutcome {
    match spec_unpack(r.compression, r.payload, r.predicted, policy) {
        Unpacked::Data(d) => MipmapOutcome::Read(
            MipmapView {
                width: r.width,
                height: r.height,
                paatype: r.paatype,
                compression: r.compression,
                data: d,
            },
        ),
        Unpacked::Failed(e) => MipmapOutcome::Failed(e),
        Unpacked::LzoFailed => MipmapOutcome::LzoFailed,
    }
}

/// The outcome of reading one mipmap at `pos` in `data`.
pub open spec fn spec_read_mipmap(
    data: Seq<u8>,
    pos: int,
    paatype: PaaType,
    policy: ChecksumPolicy,
) -> MipmapOutcome {
    match spec_read_record(data, pos, paatype) {
        Err(e) => MipmapOutcome::Failed(e),
        Ok(r) => spec_mipmap_of_record(r, policy),
    }
}

/// The position after reading one mipmap at `pos` in `data`: the end of the
/// record where there is one; else the end of the last field that could be
/// read whole. A width or height of zero leaves the reader after the two
/// fields.
pub open spec fn spec_read_end(data: Seq<u8>, pos: int, paatype: PaaType) -> int {
    if pos + 2 > data.len() {
        pos
    } else if pos + 4 > data.len() {
        pos + 2
    } else if spec_is_empty(le16_at(data, pos), le16_at(data, pos + 2)) {
        pos + 4
    } else {
        let sentinel = le16_at(data, pos) == SENTINEL_WIDTH && le16_at(data, pos + 2)
            == SENTINEL_HEIGHT;
        if sentinel && pos + 6 > data.len() {
            pos + 4
        } else if sentinel && pos + 8 > data.len() {
            pos + 6
        } else {
            let at = if sentinel {
                pos + 8
            } else {
                pos + 4
            };
            let format = if sentinel {
                PaaType::IndexPalette
            } else {
                paatype
            };
            let raw_width = le16_at(data, at - 4);
            let width = if raw_width >= 0x8000 && format.spec_is_dxtn() {
                (raw_width - 0x8000) as u16
            } else {
                raw_width
            };
            if format.spec_predict_size(width, le16_at(data, at - 2)) > usize::MAX || at + 3
                > data.len() {
                at
            } else if at + 3 + le24_at(data, at) as int > data.len() {
                at + 3
            } else {
                at + 3 + le24_at(data, at) as int
            }
        }
    }
}

/// Whether an outcome ends a sequence of mipmaps: an empty mipmap or the end
/// of the input.
pub open spec fn spec_ends_sequence(outcome: MipmapOutcome) -> bool {
    match outcome {
        MipmapOutcome::Failed(e) => e == PaaError::EmptyMipmap || e == PaaError::UnexpectedEof || e
            == PaaError::MipmapDataBeyondEof,
        _ => false,
    }
}

/// The outcomes of reading mipmaps one after another from `pos` up to and
/// with the first that ends the sequence.
pub open spec fn spec_read_until_eof(
    data: Seq<u8>,
    pos: int,
    paatype: PaaType,
    policy: ChecksumPolicy,
) -> Seq<MipmapOutcome>
    decreases data.len() - pos,
{
    let outcome = spec_read_mipmap(data, pos, paatype, policy);
    let end = spec_read_end(data, pos, paatype);
    if !spec_ends_sequence(outcome) && pos < end <= data.len() {
        seq![outcome] + spec_read_until_eof(data, end, paatype, policy)
    } else {
        seq![outcome]
    }
}

/// The outcome of reading one mipmap at the offset `offset` of `data`.
pub open spec fn spec_read_at_offset(
    data: Seq<u8>,
    offset: u32,
    paatype: PaaType,
    policy: ChecksumPolicy,
) -> MipmapOutcome {
    if offset >= data.len() {
        MipmapOutcome::Failed(PaaError::MipmapOffsetBeyondEof)
    } else {
        spec_read_mipmap(data, offset as int, paatype, policy)
    }
}

impl PaaMipmapCompression {
    /// Packs `input` with this scheme. The dictionary stream comes without
    /// its checksum trailer. A block of the block codec is returned only
    /// where [`accept_block`] accepts it, so that what is returned is sure to
    /// expand to `input`.
    pub fn compress_slice(self, input: &[u8]) -> (res: PaaResult<Vec<u8>>)
        ensures
            match self {
                PaaMipmapCompression::Uncompressed => res is Ok && res->Ok_0@ == input@,
                PaaMipmapCompression::RleBlocks => res is Ok && res->Ok_0@ == spec_rle_encode(
                    input@,
                ),
                PaaMipmapCompression::Lzss => res is Ok && res->Ok_0@ == spec_lzss_encode(input@)
                    && spec_lzss_decode(res->Ok_0@) == Some(input@) && res->Ok_0@.len()
                    <= input@.len() + input@.len() / 8 + 1,
                PaaMipmapCompression::Lzo => (res is Ok ==> lzo_decompressed(
                    res->Ok_0@,
                    input@.len(),
                ) == Some(input@)) && (res is Err ==> res->Err_0 is LzoError || res->Err_0
                    == PaaError::MipmapTooLarge),
            },
    {
        match self {
            PaaMipmapCompression::Uncompressed => Ok(vstd::slice::slice_to_vec(input)),
            PaaMipmapCompression::RleBlocks => Ok(rle_encode(input)),
            PaaMipmapCompression::Lzss => Ok(lzss_encode(input)),
            PaaMipmapCompression::Lzo => {
                let n = input.len();
                if n / 16 > usize::MAX - n || n + n / 16 > usize::MAX - 67 {
                    return Err(PaaError::MipmapTooLarge);
                }
                match lzo_compress(input) {
                    Ok(block) => accept_block(block, input),
                    Err(text) => Err(PaaError::LzoError(text)),
                }
            },
        }
    }

    /// Expands `input` with this scheme; `dst_len` is the length the block
    /// codec is to expand to. The dictionary stream comes without its
    /// checksum trailer.
    pub fn decompress_slice(self, input: &[u8], dst_len: usize) -> (res: PaaResult<Vec<u8>>)
        ensures
            match self {
                PaaMipmapCompression::Uncompressed => res is Ok && res->Ok_0@ == input@,
                PaaMipmapCompression::RleBlocks => match spec_rle_decode(input@) {
                    Some(d) => res is Ok && res->Ok_0@ == d,
                    None => res == Err::<Vec<u8>, PaaError>(PaaError::RleError),
                },
                PaaMipmapCompression::Lzss => match spec_lzss_decode(input@) {
                    Some(d) => res is Ok && res->Ok_0@ == d,
                    None => res == Err::<Vec<u8>, PaaError>(PaaError::LzssDecompressError),
                },
                PaaMipmapCompression::Lzo => match lzo_decompressed(input@, dst_len as nat) {
                    Some(d) => res is Ok && res->Ok_0@ == d,
                    None => res is Err && res->Err_0 is LzoError,
                },
            },
    {
        match self {
            PaaMipmapCompression::Uncompressed => Ok(vstd::slice::slice_to_vec(input)),
            PaaMipmapCompression::RleBlocks => rle_decode(input),
            PaaMipmapCompression::Lzss => lzss_decode(input),
            PaaMipmapCompression::Lzo => match lzo_decompress(input, dst_len) {
                Ok(data) => Ok(data),
                Err(text) => Err(PaaError::LzoError(text)),
            },
        }
    }
}

/// Accepts a block of the block codec as the packed form of `data`: the
/// block is expanded to the length of `data` and returned where that gives
/// `data`. Where the block does not expand, or expands to something else,
/// the result is an `LzoError`.
pub fn accept_block(block: Vec<u8>, data: &[u8]) -> (res: PaaResult<Vec<u8>>)
    ensures
        lzo_decompressed(block@, data@.len()) == Some(data@) ==> res is Ok && res->Ok_0@ == block@,
        lzo_decompressed(block@, data@.len()) != Some(data@) ==> res is Err && res->Err_0
            is LzoError,
{
    match lzo_decompress(block.as_slice(), data.len()) {
        Ok(back) => {
            if same_bytes(back.as_slice(), data) {
                Ok(block)
            } else {
                Err(PaaError::LzoError(String::from_str("the block does not expand to the data")))
            }
        },
        Err(text) => Err(PaaError::LzoError(text)),
    }
}

/// Whether two slices hold the same bytes.
pub fn same_bytes(a: &[u8], b: &[u8]) -> (r: bool)
    ensures
        r == (a@ == b@),
{
    if a.len() != b.len() {
        return false;
    }
    let mut i: usize = 0;
    while i < a.len()
        invariant
            i <= a@.len(),
            a@.len() == b@.len(),
            forall|j: int| 0 <= j < i ==> a@[j] == b@[j],
        decreases a@.len() - i,
    {
        if a[i] != b[i] {
            return false;
        }
        i = i + 1;
    }
    assert(a@ =~= b@);
    true
}

/// True for a side a block-compressed mipmap can be serialized with.
pub fn is_block_side(d: u16) -> (r: bool)
    ensures
        r == spec_block_side(d),
{
    d == 4 || d == 8 || d == 16 || d == 32 || d == 64 || d == 128 || d == 256 || d == 512 || d
        == 1024 || d == 2048 || d == 4096 || d == 8192 || d == 16384
}

/// The scheme the cues of a header point to. `paatype` is the format after
/// the sentinel rule, `sentinel` tells whether the sentinel pair was found,
/// `flagged` whether the width field had its top bit set.
pub fn resolve_compression(
    paatype: PaaType,
    sentinel: bool,
    flagged: bool,
    payload_len: usize,
    predicted: usize,
) -> (c: PaaMipmapCompression)
    ensures
        c == spec_resolve_compression(
            paatype,
            sentinel,
            flagged,
            payload_len as nat,
            predicted as nat,
        ),
{
    if sentinel {
        PaaMipmapCompression::Lzss
    } else if matches!(paatype, PaaType::IndexPalette) {
        PaaMipmapCompression::RleBlocks
    } else if flagged && paatype.is_dxtn() {
        PaaMipmapCompression::Lzo
    } else if payload_len != predicted {
        PaaMipmapCompression::Lzss
    } else {
        PaaMipmapCompression::Uncompressed
    }
}

impl MipmapRecord {
    pub open spec fn view_at(&self, end: int) -> RecordView {
        RecordView {
            width: self.width,
            height: self.height,
            paatype: self.paatype,
            compression: self.compression,
            predicted: self.predicted as nat,
            payload: self.payload@,
            end,
        }
    }

    /// Reads the header and payload of the record at the position of
    /// `input`. On failure the position is left after the last field that
    /// could be read whole: after the two dimension fields where one of them
    /// is zero.
    pub fn read_from(input: &mut PaaReader, paatype: PaaType) -> (res: PaaResult<MipmapRecord>)
        ensures
            final(input).data == old(input).data,
            final(input).pos == spec_read_end(old(input).data@, old(input).pos as int, paatype),
            match spec_read_record(old(input).data@, old(input).pos as int, paatype) {
                Ok(r) => res is Ok && res->Ok_0.view_at(r.end) == r && final(input).pos == r.end,
                Err(e) => res == Err::<MipmapRecord, PaaError>(e),
            },
    {
        let ghost data = input.data@;
        let mut width = match input.read_u16() {
            Ok(v) => v,
            Err(e) => {
                return Err(e);
            },
        };
        let mut height = match input.read_u16() {
            Ok(v) => v,
            Err(e) => {
                return Err(e);
            },
        };
        if width == 0 || height == 0 {
            return Err(PaaError::EmptyMipmap);
        }
        let mut format = paatype;
        let sentinel = width == SENTINEL_WIDTH && height == SENTINEL_HEIGHT;
        if sentinel {
            format = PaaType::IndexPalette;
            width = match input.read_u16() {
                Ok(v) => v,
                Err(e) => {
                    return Err(e);
                },
            };
            height = match input.read_u16() {
                Ok(v) => v,
                Err(e) => {
                    return Err(e);
                },
            };
        }
        let flagged = width >= WIDTH_FLAG && format.is_dxtn();
        if flagged {
            width = width - WIDTH_FLAG;
        }
        let predicted = match format.checked_predict_size(width, height) {
            Some(n) => n,
            None => {
                return Err(PaaError::ArithmeticOverflow);
            },
        };
        let payload_len = match input.read_u24() {
            Ok(v) => v as usize,
            Err(e) => {
                return Err(e);
            },
        };
        let compression = resolve_compression(format, sentinel, flagged, payload_len, predicted);
        let payload = match input.read_exact_buffered(payload_len) {
            Ok(v) => v,
            Err(e) => {
                return Err(e);
            },
        };
        Ok(MipmapRecord { width, height, paatype: format, compression, predicted, payload })
    }

    /// Expands the payload into the mipmap the record stands for.
    pub fn into_mipmap(self, policy: ChecksumPolicy) -> (res: PaaResult<PaaMipmap>)
        ensures
            slot_matches(res, spec_mipmap_of_record(self.view_at(0), policy)),
    {
        let MipmapRecord { width, height, paatype, compression, predicted, payload } = self;
        let data: Vec<u8> = match compression {
            PaaMipmapCompression::Uncompressed => payload,
            PaaMipmapCompression::Lzo => match compression.decompress_slice(
                payload.as_slice(),
                predicted,
            ) {
                Ok(d) => d,
                Err(e) => {
                    return Err(e);
                },
            },
            PaaMipmapCompression::RleBlocks => match rle_decode(payload.as_slice()) {
                Ok(d) => d,
                Err(e) => {
                    return Err(e);
                },
            },
            PaaMipmapCompression::Lzss => {
                let n = payload.len();
                if n < 4 {
                    return Err(PaaError::ArithmeticOverflow);
                }
                let stream = vstd::slice::slice_subrange(payload.as_slice(), 0, n - 4);
                let trailer = vstd::slice::slice_subrange(payload.as_slice(), n - 4, n);
                assert(stream@ =~= payload@.take(n - 4));
                assert(trailer@ =~= payload@.skip(n - 4));
                let stored = read_i32_le(trailer);
                let d = match lzss_decode(stream) {
                    Ok(d) => d,
                    Err(e) => {
                        return Err(e);
                    },
                };
                if d.len() != predicted {
                    return Err(PaaError::LzssDecompressError);
                }
                let computed = additive_checksum(d.as_slice());
                proof {
                    crate::bytes::lemma_u32_le_of_le32(
                        trailer@[0],
                        trailer@[1],
                        trailer@[2],
                        trailer@[3],
                    );
                    crate::bytes::lemma_signed_round_trip(
                        computed,
                        crate::bytes::le32(trailer@[0], trailer@[1], trailer@[2], trailer@[3]),
                    );
                    crate::bytes::lemma_le_round_trip(as_unsigned(computed));
                    assert(trailer@ =~= seq![trailer@[0], trailer@[1], trailer@[2], trailer@[3]]);
                }
                if computed != stored {
                    match policy {
                        ChecksumPolicy::Strict => {
                            return Err(PaaError::LzssWrongChecksum);
                        },
                        ChecksumPolicy::Lenient => {},
                    }
                }
                d
            },
        };
        Ok(PaaMipmap { width, height, paatype, compression, data })
    }
}

impl Clone for PaaMipmap {
    fn clone(&self) -> (r: Self)
        ensures
            r@ == self@,
    {
        let data = vstd::slice::slice_to_vec(self.data.as_slice());
        PaaMipmap {
            width: self.width,
            height: self.height,
            paatype: self.paatype,
            compression: self.compression,
            data,
        }
    }
}

impl Default for PaaMipmap {
    /// An empty block-compressed mipmap.
    fn default() -> (r: Self)
        ensures
            r@ == (MipmapView {
                width: 0,
                height: 0,
                paatype: PaaType::Dxt5,
                compression: PaaMipmapCompression::Uncompressed,
                data: Seq::<u8>::empty(),
            }),
    {
        PaaMipmap {
            width: 0,
            height: 0,
            paatype: PaaType::Dxt5,
            compression: PaaMipmap::suggest_compression(PaaType::Dxt5, 0, 0),
            data: Vec::new(),
        }
    }
}

impl PaaMipmap {
    /// True if a dimension is 0.
    pub fn is_empty(&self) -> (r: bool)
        ensures
            r == spec_is_empty(self.width, self.height),
    {
        self.width == 0 || self.height == 0
    }

    /// True if a block-compressed mipmap of these dimensions is stored
    /// packed: from 256 by 256 pixels on.
    pub fn dxtn_needs_lzo(width: u16, height: u16) -> (r: bool)
        ensures
            r == spec_dxtn_needs_lzo(width, height),
    {
        assert(width as int * height as int <= 65535 * 65535) by (nonlinear_arith)
            requires
                width <= 65535,
                height <= 65535,
        ;
        (width as u32) * (height as u32) >= 65536
    }

    /// The scheme an encoder uses for a format and dimensions.
    pub fn suggest_compression(paatype: PaaType, width: u16, height: u16) -> (c:
        PaaMipmapCompression)
        ensures
            c == spec_suggest_compression(paatype, width, height),
    {
        if paatype.is_dxtn() {
            if Self::dxtn_needs_lzo(width, height) {
                PaaMipmapCompression::Lzo
            } else {
                PaaMipmapCompression::Uncompressed
            }
        } else {
            PaaMipmapCompression::Lzss
        }
    }

    /// Checks that the mipmap can be serialized: both sides below 32768,
    /// sides of a block-compressed one powers of two of at least 4, and as
    /// much data as the dimensions predict.
    pub fn validate(&self) -> (res: PaaResult<()>)
        ensures
            match spec_encode_error(self@) {
                Some(e) => res == Err::<(), PaaError>(e),
                None => res is Ok,
            },
    {
        if self.width >= 32768 || self.height >= 32768 {
            return Err(PaaError::MipmapTooLarge);
        }
        if self.paatype.is_dxtn() && !(is_block_side(self.width) && is_block_side(self.height)) {
            return Err(PaaError::UnexpectedMipmapDimensions);
        }
        let predicted = self.paatype.checked_predict_size(self.width, self.height);
        match predicted {
            Some(n) => {
                if n != self.data.len() {
                    return Err(
                        PaaError::UnexpectedMipmapDataSize(
                            self.width,
                            self.height,
                            self.data.len(),
                        ),
                    );
                }
            },
            None => {
                return Err(
                    PaaError::UnexpectedMipmapDataSize(self.width, self.height, self.data.len()),
                );
            },
        }
        Ok(())
    }

    /// The dimension fields that open the record.
    fn header(&self) -> (bytes: Vec<u8>)
        requires
            self.width < 32768,
        ensures
            bytes@ == spec_header(self@),
    {
        let mut bytes: Vec<u8> = Vec::new();
        let empty = self.is_empty();
        let indexed = !empty && matches!(self.compression, PaaMipmapCompression::Lzss) && matches!(
            self.paatype,
            PaaType::IndexPalette
        );
        let packed = !empty && matches!(self.compression, PaaMipmapCompression::Lzo)
            && self.paatype.is_dxtn();
        if indexed {
            push_u16_le(&mut bytes, SENTINEL_WIDTH);
            push_u16_le(&mut bytes, SENTINEL_HEIGHT);
            push_u16_le(&mut bytes, self.width);
            push_u16_le(&mut bytes, self.height);
            assert(bytes@ =~= u16_le(SENTINEL_WIDTH) + u16_le(SENTINEL_HEIGHT) + u16_le(self.width)
                + u16_le(self.height));
        } else if packed {
            push_u16_le(&mut bytes, self.width + WIDTH_FLAG);
            push_u16_le(&mut bytes, self.height);
            assert(bytes@ =~= u16_le((self.width + 0x8000) as u16) + u16_le(self.height));
        } else {
            push_u16_le(&mut bytes, self.width);
            push_u16_le(&mut bytes, self.height);
            assert(bytes@ =~= u16_le(self.width) + u16_le(self.height));
        }
        bytes
    }

    /// The record with `payload` as its packed data: the dimension fields,
    /// the payload length in three bytes and the payload; for an empty
    /// mipmap the dimension fields alone. Fails with `MipmapTooLarge` for a
    /// width of 32768 or more and for a payload of 16777216 bytes or more.
    pub fn frame(&self, payload: &[u8]) -> (res: PaaResult<Vec<u8>>)
        ensures
            bytes_of(res) == spec_framed(self@, payload@),
    {
        if self.width >= 32768 {
            return Err(PaaError::MipmapTooLarge);
        }
        let mut bytes = self.header();
        if self.is_empty() {
            return Ok(bytes);
        }
        if payload.len() >= PAYLOAD_LIMIT {
            return Err(PaaError::MipmapTooLarge);
        }
        push_u24_le(&mut bytes, payload.len() as u32);
        bytes.extend_from_slice(payload);
        assert(bytes@ =~= spec_header(self@) + u24_le(payload@.len() as u32) + payload@);
        Ok(bytes)
    }

    /// The payload the record carries: the data packed with the mipmap's
    /// scheme, followed for the dictionary codec by the checksum of the data.
    /// Where the dictionary stream with its checksum would be exactly as long
    /// as the data, which a reader would take for stored data, the stream is
    /// made of literals alone, which is longer.
    pub fn pack(&self) -> (res: PaaResult<Vec<u8>>)
        ensures
            match spec_fixed_payload(self.compression, self.data@) {
                Some(p) => res is Ok && res->Ok_0@ == p,
                None => true,
            },
            res is Ok ==> spec_payload_ok(self.compression, self.data@, res->Ok_0@),
            res is Err ==> self.compression == PaaMipmapCompression::Lzo && (res->Err_0 is LzoError
                || res->Err_0 == PaaError::MipmapTooLarge),
    {
        let mut payload = match self.compression.compress_slice(self.data.as_slice()) {
            Ok(p) => p,
            Err(e) => {
                return Err(e);
            },
        };
        if matches!(self.compression, PaaMipmapCompression::Lzss) {
            let n = self.data.len();
            if n >= 4 && payload.len() == n - 4 {
                payload = lzss_encode_literals(self.data.as_slice());
            }
            let ghost stream = payload@;
            let sum = additive_checksum(self.data.as_slice());
            let trailer = write_i32_le(sum);
            payload.extend_from_slice(trailer.as_slice());
            assert(payload@ =~= stream + trailer@);
        }
        Ok(payload)
    }

    /// Serializes the mipmap into its record.
    ///
    /// Fails with `MipmapTooLarge` for a side of 32768 or more, with
    /// `UnexpectedMipmapDimensions` for a block-compressed mipmap whose sides
    /// are not powers of two of at least 4, with `UnexpectedMipmapDataSize`
    /// where the data is not as long as predicted, with `MipmapTooLarge`
    /// where the payload is too long for its length field, and with
    /// `LzoError` where the block codec fails.
    pub fn to_bytes(&self) -> (res: PaaResult<Vec<u8>>)
        ensures
            spec_serialized(self@, res),
    {
        match self.validate() {
            Ok(()) => {},
            Err(e) => {
                return Err(e);
            },
        }
        if self.is_empty() {
            return Ok(self.header());
        }
        let payload = match self.pack() {
            Ok(p) => p,
            Err(e) => {
                return Err(e);
            },
        };
        self.frame(payload.as_slice())
    }

    /// Serializes the mipmap into its record, as [`PaaMipmap::to_bytes`]
    /// does.
    pub fn as_bytes(&self) -> (res: PaaResult<Vec<u8>>)
        ensures
            spec_serialized(self@, res),
    {
        self.to_bytes()
    }

    /// Reads one mipmap at the position of `input`, accepting a checksum
    /// that does not match. On success, and where the payload could not be
    /// expanded, the position is the end of the record; where no record was
    /// found it is the end of the last field that could be read whole, which
    /// for a width or height of zero is the end of the two fields.
    pub fn read_from(input: &mut PaaReader, paatype: PaaType) -> (res: PaaResult<PaaMipmap>)
        ensures
            final(input).data == old(input).data,
            final(input).pos == spec_read_end(old(input).data@, old(input).pos as int, paatype),
            slot_matches(
                res,
                spec_read_mipmap(
                    old(input).data@,
                    old(input).pos as int,
                    paatype,
                    ChecksumPolicy::Lenient,
                ),
            ),
    {
        Self::read_from_with_policy(input, paatype, ChecksumPolicy::Lenient)
    }

    /// Reads one mipmap at the position of `input` under the given checksum
    /// policy.
    pub fn read_from_with_policy(
        input: &mut PaaReader,
        paatype: PaaType,
        policy: ChecksumPolicy,
    ) -> (res: PaaResult<PaaMipmap>)
        ensures
            final(input).data == old(input).data,
            final(input).pos == spec_read_end(old(input).data@, old(input).pos as int, paatype),
            slot_matches(
                res,
                spec_read_mipmap(old(input).data@, old(input).pos as int, paatype, policy),
            ),
    {
        match MipmapRecord::read_from(input, paatype) {
            Err(e) => Err(e),
            Ok(record) => record.into_mipmap(policy),
        }
    }

    /// Reads one mipmap from the start of `input`.
    pub fn from_bytes(input: &[u8], paatype: PaaType) -> (res: PaaResult<PaaMipmap>)
        ensures
            slot_matches(res, spec_read_mipmap(input@, 0, paatype, ChecksumPolicy::Lenient)),
    {
        let mut reader = PaaReader::new(input);
        Self::read_from(&mut reader, paatype)
    }

    /// Reads mipmaps one after another up to and with the first that ends
    /// the sequence: the last slot holds `EmptyMipmap` or `UnexpectedEof`.
    pub fn read_from_until_eof(input: &mut PaaReader, paatype: PaaType) -> (slots: Vec<
        PaaResult<PaaMipmap>,
    >)
        ensures
            final(input).data == old(input).data,
            slots_match(
                slots@,
                spec_read_until_eof(
                    old(input).data@,
                    old(input).pos as int,
                    paatype,
                    ChecksumPolicy::Lenient,
                ),
            ),
    {
        let mut slots: Vec<PaaResult<PaaMipmap>> = Vec::new();
        let ghost data = input.data@;
        let ghost start = input.pos as int;
        let ghost mut outcomes: Seq<MipmapOutcome> = Seq::empty();
        let policy = ChecksumPolicy::Lenient;
        loop
            invariant_except_break
                slots_match(slots@, outcomes),
                outcomes + spec_read_until_eof(data, input.pos as int, paatype, policy)
                    == spec_read_until_eof(data, start, paatype, policy),
            invariant
                input.data == old(input).data,
                data == input.data@,
            ensures
                slots_match(slots@, spec_read_until_eof(data, start, paatype, policy)),
            decreases data.len() - input.pos,
        {
            let before = input.position();
            let ghost tail = spec_read_until_eof(data, before as int, paatype, policy);
            let slot = Self::read_from_with_policy(input, paatype, policy);
            let after = input.position();
            let ghost outcome = spec_read_mipmap(data, before as int, paatype, policy);
            let ends = match &slot {
                Err(PaaError::EmptyMipmap) => true,
                Err(PaaError::UnexpectedEof) => true,
                Err(PaaError::MipmapDataBeyondEof) => true,
                _ => false,
            };
            assert(ends == spec_ends_sequence(outcome));
            let stop = ends || after <= before || after > input.data.len();
            slots.push(slot);
            proof {
                let next = outcomes.push(outcome);
                assert(slots_match(slots@, next)) by {
                    assert forall|i: int| 0 <= i < slots@.len() implies slot_matches(
                        #[trigger] slots@[i],
                        next[i],
                    ) by {
                        if i < outcomes.len() {
                            assert(next[i] == outcomes[i]);
                        }
                    }
                }
                if !stop {
                    assert(outcomes + (seq![outcome] + spec_read_until_eof(
                        data,
                        after as int,
                        paatype,
                        policy,
                    )) =~= next + spec_read_until_eof(data, after as int, paatype, policy));
                } else {
                    assert(tail =~= seq![outcome]);
                    assert(outcomes + seq![outcome] =~= next);
                }
                outcomes = next;
            }
            if stop {
                break ;
            }
        }
        slots
    }

    /// Reads one mipmap at each of `offsets`. A slot whose offset lies at or
    /// past the end of the input holds `MipmapOffsetBeyondEof`.
    pub fn read_from_with_offsets(input: &mut PaaReader, offsets: &[u32], paatype: PaaType) -> (slots:
        Vec<PaaResult<PaaMipmap>>)
        ensures
            final(input).data == old(input).data,
            slots@.len() == offsets@.len(),
            forall|i: int|
                0 <= i < slots@.len() ==> slot_matches(
                    #[trigger] slots@[i],
                    spec_read_at_offset(
                        old(input).data@,
                        offsets@[i],
                        paatype,
                        ChecksumPolicy::Lenient,
                    ),
                ),
    {
        let mut slots: Vec<PaaResult<PaaMipmap>> = Vec::new();
        let mut i: usize = 0;
        while i < offsets.len()
            invariant
                i <= offsets@.len(),
                input.data == old(input).data,
                slots@.len() == i,
                forall|j: int|
                    0 <= j < i ==> slot_matches(
                        #[trigger] slots@[j],
                        spec_read_at_offset(
                            old(input).data@,
                            offsets@[j],
                            paatype,
                            ChecksumPolicy::Lenient,
                        ),
                    ),
            decreases offsets@.len() - i,
        {
            let offset = offsets[i];
            let slot = if offset as usize >= input.data.len() {
                Err(PaaError::MipmapOffsetBeyondEof)
            } else {
                input.seek(offset as usize);
                Self::read_from(input, paatype)
            };
            slots.push(slot);
            i = i + 1;
        }
        slots
    }
}

} // verus!
