//! The container: the format code, the metadata records, the palette block,
//! the mipmap records and the trailer.

use vstd::prelude::*;
use crate::bytes::{le16_at, u16_le, PaaReader};
use crate::error::{PaaError, PaaResult};
use crate::image_proofs::lemma_written_holds_records;
use crate::mipmap::{
    bytes_of, lemma_serialized, slots_match, spec_block_of, spec_encode_error, spec_header, spec_read_at_offset,
    spec_read_until_eof, spec_record, spec_serialize_failure, spec_serializes, ChecksumPolicy,
    MipmapOutcome, MipmapView, PaaMipmap,
};
use crate::paatype::PaaType;
use crate::palette::{spec_palette_bytes, spec_read_palette, PaaPalette};
use crate::tagg::{
    lemma_u32s_le_len, spec_pad16, spec_read_taggs, spec_tagg_bytes, taggs_view, Tagg, TaggView,
};

verus! {

/// Most mipmaps a container can hold: the offsets table has sixteen entries,
/// and a zero entry ends it.
pub const MAX_MIPMAPS: usize = 15;

/// Bytes of the offsets record on the wire.
pub const OFFSETS_RECORD_LEN: usize = 76;

/// A texture file: one format, the metadata records in file order, an
/// optional palette, and one slot per mipmap, largest first. A slot holds
/// the mipmap or the reason it could not be read.
#[derive(Debug)]
pub struct PaaImage {
    pub paatype: PaaType,
    pub taggs: Vec<Tagg>,
    pub palette: Option<PaaPalette>,
    pub mipmaps: Vec<PaaResult<PaaMipmap>>,
}

/// What reading a container gives: it never holds a palette.
pub struct ImageOutcome {
    pub paatype: PaaType,
    pub taggs: Seq<TaggView>,
    pub mipmaps: Seq<MipmapOutcome>,
}

/// The offsets of the last offsets record among `taggs`, or none.
pub open spec fn spec_offsets_tag(taggs: Seq<TaggView>) -> Seq<u32>
    decreases taggs.len(),
{
    if taggs.len() == 0 {
        Seq::<u32>::empty()
    } else {
        match taggs.last() {
            TaggView::Offs { offsets } => offsets,
            _ => spec_offsets_tag(taggs.drop_last()),
        }
    }
}

/// Whether an error ends the run of records in a well-formed file.
pub open spec fn spec_ends_taggs(e: PaaError) -> bool {
    e == PaaError::UnexpectedTaggSignature || e is UnknownTaggType
}

/// Whether the run of records ends at `at`, where reading a record failed
/// with `stop`: what stands there does not start with the signature, carries
/// an unknown name, or is too short for the head of a record.
pub open spec fn spec_taggs_end_at(data: Seq<u8>, at: int, stop: PaaError) -> bool {
    spec_ends_taggs(stop) || (stop == PaaError::UnexpectedEof && at + 12 > data.len())
}

/// Whether every offset lies before the end of an input of `len` bytes.
pub open spec fn spec_offsets_within(offsets: Seq<u32>, len: nat) -> bool {
    forall|i: int| 0 <= i < offsets.len() ==> #[trigger] offsets[i] < len
}

/// The outcomes of reading one mipmap at each of `offsets`.
pub open spec fn spec_read_at_offsets(data: Seq<u8>, offsets: Seq<u32>, paatype: PaaType) -> Seq<
    MipmapOutcome,
> {
    Seq::new(
        offsets.len(),
        |i: int| spec_read_at_offset(data, offsets[i], paatype, ChecksumPolicy::Lenient),
    )
}

/// The container that starts at `pos` in `data`, or the reason there is
/// none.
pub open spec fn spec_read_image(data: Seq<u8>, pos: int) -> Result<ImageOutcome, PaaError> {
    if pos + 2 > data.len() {
        Err(PaaError::UnexpectedEof)
    } else {
        match PaaType::spec_from_code(le16_at(data, pos)) {
            None => Err(PaaError::UnknownPaaType([data[pos], data[pos + 1]])),
            Some(paatype) => {
                let (taggs, stop, at) = spec_read_taggs(data, pos + 2);
                if !spec_taggs_end_at(data, at, stop) {
                    Err(stop)
                } else {
                    match spec_read_palette(data, at) {
                        Err(e) => Err(e),
                        Ok((Some(_), _)) => Err(PaaError::UnknownPaaType([0x47u8, 0x47u8])),
                        Ok((None, first)) => {
                            let offsets = spec_offsets_tag(taggs);
                            if offsets.len() == 0 {
                                Ok(
                                    ImageOutcome {
                                        paatype,
                                        taggs,
                                        mipmaps: spec_read_until_eof(
                                            data,
                                            first,
                                            paatype,
                                            ChecksumPolicy::Lenient,
                                        ),
                                    },
                                )
                            } else if !spec_offsets_within(offsets, data.len()) {
                                Err(PaaError::MipmapOffsetBeyondEof)
                            } else {
                                Ok(
                                    ImageOutcome {
                                        paatype,
                                        taggs,
                                        mipmaps: spec_read_at_offsets(data, offsets, paatype),
                                    },
                                )
                            }
                        },
                    }
                }
            },
        }
    }
}

/// Whether `image` is what `outcome` describes.
pub open spec fn image_matches(image: PaaImage, outcome: ImageOutcome) -> bool {
    &&& image.paatype == outcome.paatype
    &&& taggs_view(image.taggs@) == outcome.taggs
    &&& image.palette is None
    &&& slots_match(image.mipmaps@, outcome.mipmaps)
}

/// The bytes of the records of `taggs` that are no offsets record, in turn.
pub open spec fn spec_kept_taggs(taggs: Seq<TaggView>) -> Seq<u8>
    decreases taggs.len(),
{
    if taggs.len() == 0 {
        Seq::<u8>::empty()
    } else {
        spec_kept_taggs(taggs.drop_last()) + (if taggs.last() is Offs {
            Seq::<u8>::empty()
        } else {
            spec_tagg_bytes(taggs.last())
        })
    }
}

/// Whether each record of `taggs` that is written has a payload whose
/// length fits its length field.
pub open spec fn spec_taggs_writable(taggs: Seq<Tagg>) -> bool {
    forall|i: int| 0 <= i < taggs.len() ==> (#[trigger] taggs[i]).spec_writable()
}

/// Total length of `blocks`.
pub open spec fn spec_total_len(blocks: Seq<Seq<u8>>) -> nat
    decreases blocks.len(),
{
    if blocks.len() == 0 {
        0
    } else {
        spec_total_len(blocks.drop_last()) + blocks.last().len()
    }
}

/// The bytes of `blocks` in turn.
pub open spec fn spec_concat(blocks: Seq<Seq<u8>>) -> Seq<u8>
    decreases blocks.len(),
{
    if blocks.len() == 0 {
        Seq::<u8>::empty()
    } else {
        spec_concat(blocks.drop_last()) + blocks.last()
    }
}

/// The position at which block `i` starts when the first starts at `first`.
pub open spec fn spec_block_start(first: nat, blocks: Seq<Seq<u8>>, i: int) -> nat {
    first + spec_total_len(blocks.take(i))
}

/// Whether the start of every block fits 32 bits.
pub open spec fn spec_offsets_fit(first: nat, blocks: Seq<Seq<u8>>) -> bool {
    forall|i: int| 0 <= i < blocks.len() ==> #[trigger] spec_block_start(first, blocks, i) <= u32::MAX
}

/// The palette block of a container: two zero bytes where it has none.
pub open spec fn spec_palette_block(palette: Option<PaaPalette>) -> Seq<u8> {
    match palette {
        Some(p) => spec_palette_bytes(p@),
        None => seq![0u8, 0u8],
    }
}

/// The part of the file before the offsets record.
pub open spec fn spec_image_head(paatype: PaaType, taggs: Seq<TaggView>) -> Seq<u8> {
    u16_le(paatype.spec_code()) + spec_kept_taggs(taggs)
}

/// The position of the first mipmap record.
pub open spec fn spec_first_block_at(
    paatype: PaaType,
    taggs: Seq<TaggView>,
    palette_block: Seq<u8>,
) -> nat {
    spec_image_head(paatype, taggs).len() + OFFSETS_RECORD_LEN as nat + palette_block.len()
}

/// The file: the format code, the records other than offsets, an offsets
/// record made from where the mipmap records `blocks` come to lie, the
/// palette block, the mipmap records and six zero bytes.
pub open spec fn spec_image_bytes(
    paatype: PaaType,
    taggs: Seq<TaggView>,
    palette_block: Seq<u8>,
    blocks: Seq<Seq<u8>>,
) -> Seq<u8> {
    let first = spec_first_block_at(paatype, taggs, palette_block);
    let offsets = Seq::new(blocks.len(), |i: int| spec_block_start(first, blocks, i) as u32);
    spec_image_head(paatype, taggs) + spec_tagg_bytes(TaggView::Offs { offsets }) + palette_block
        + spec_concat(blocks) + seq![0u8, 0u8, 0u8, 0u8, 0u8, 0u8]
}

/// The views of `blocks`.
pub open spec fn blocks_view(blocks: Seq<Vec<u8>>) -> Seq<Seq<u8>> {
    Seq::new(blocks.len(), |i: int| blocks[i]@)
}

/// Whether `blocks` holds one record for each slot of `slots`, each the
/// record of the mipmap in its slot: what serializing that mipmap gives, or,
/// where the block codec packs its data, a record whose payload expands to
/// the data.
pub open spec fn spec_blocks_of(slots: Seq<PaaResult<PaaMipmap>>, blocks: Seq<Seq<u8>>) -> bool {
    &&& blocks.len() == slots.len()
    &&& forall|i: int|
        0 <= i < slots.len() ==> (#[trigger] slots[i]) is Ok && spec_block_of(
            slots[i]->Ok_0@,
            blocks[i],
        )
}

/// Whether `e` tells why the mipmaps of `slots` could not be serialized.
/// The slots before some slot hold mipmaps that can be serialized, and that
/// slot either holds an error, which `e` wraps with the slot's index, or
/// holds a mipmap whose serialization can end in the error that `e` wraps.
pub open spec fn spec_slots_failure(slots: Seq<PaaResult<PaaMipmap>>, e: PaaError) -> bool {
    exists|i: int|
        0 <= i < slots.len() && (forall|j: int|
            0 <= j < i ==> (#[trigger] slots[j]) is Ok && spec_encode_error(slots[j]->Ok_0@)
                is None) && (match #[trigger] slots[i] {
            Err(inner) => e == PaaError::InputMipmapErrorWhileEncoding(i as usize, Box::new(inner)),
            Ok(m) => e is MipmapErrorWhileSerializing && spec_serialize_failure(
                m@,
                *e->MipmapErrorWhileSerializing_0,
            ),
        })
}

/// Whether every slot holds a mipmap that is sure to be serialized.
pub open spec fn spec_slots_serialize(slots: Seq<PaaResult<PaaMipmap>>) -> bool {
    forall|i: int|
        0 <= i < slots.len() ==> (#[trigger] slots[i]) is Ok && spec_serializes(slots[i]->Ok_0@)
}

/// Whether slot `k` is the first that holds an error, and every slot before
/// it holds a mipmap that is sure to be serialized.
pub open spec fn spec_first_error_at(slots: Seq<PaaResult<PaaMipmap>>, k: int) -> bool {
    &&& 0 <= k < slots.len()
    &&& slots[k] is Err
    &&& forall|j: int| 0 <= j < k ==> (#[trigger] slots[j]) is Ok && spec_serializes(slots[j]->Ok_0@)
}

/// Whether `res` is what serializing the mipmaps of `slots` gives: a record
/// for each, or the reason the first that could not be serialized could not.
pub open spec fn spec_blocks_made(slots: Seq<PaaResult<PaaMipmap>>, res: PaaResult<Vec<Vec<u8>>>) -> bool {
    &&& match res {
        Ok(blocks) => spec_blocks_of(slots, blocks_view(blocks@)),
        Err(e) => spec_slots_failure(slots, e),
    }
    &&& spec_slots_serialize(slots) ==> res is Ok
    &&& forall|k: int| #[trigger]
        spec_first_error_at(slots, k) ==> res is Err && res->Err_0
            == PaaError::InputMipmapErrorWhileEncoding(k as usize, Box::new(slots[k]->Err_0))
}

/// Most bytes a mipmap record can have: two pairs of dimension fields, the
/// length field and the longest payload the length field can announce.
pub const MAX_RECORD_LEN: usize = 0x100_000A;

/// Whether the first mipmap record starts early enough for every record of
/// a container to start within the reach of a 32-bit offset, whatever the
/// records hold.
pub open spec fn spec_head_room(first: nat) -> bool {
    first + (MAX_MIPMAPS - 1) * MAX_RECORD_LEN <= u32::MAX
}

/// Whether serializing a container is sure to succeed: at most fifteen
/// slots, records that can be written, a palette that fits, in every slot a
/// mipmap that is sure to be serialized, and a first mipmap record that
/// starts early enough.
pub open spec fn spec_write_owed(image: PaaImage) -> bool {
    &&& image.mipmaps@.len() <= MAX_MIPMAPS
    &&& spec_taggs_writable(image.taggs@)
    &&& image.palette is Some ==> image.palette->Some_0@.len() <= 65535
    &&& spec_slots_serialize(image.mipmaps@)
    &&& spec_head_room(
        spec_first_block_at(
            image.paatype,
            taggs_view(image.taggs@),
            spec_palette_block(image.palette),
        ),
    )
}

/// Whether `res` is what serializing a container gives.
///
/// More than fifteen slots give `TooManyMipmaps`; else a record that cannot
/// be written gives `ArithmeticOverflow`; else a palette of more than 65535
/// colours gives `PaletteTooLarge`. Else the mipmaps are serialized in turn,
/// and the first slot that holds an error, or whose mipmap cannot be
/// serialized, gives the wrapped error. Else a mipmap record that starts
/// past the reach of a 32-bit offset gives `ArithmeticOverflow`. Else the
/// result is the file.
pub open spec fn spec_written(image: PaaImage, res: PaaResult<Vec<u8>>) -> bool {
    let slots = image.mipmaps@;
    let taggs = taggs_view(image.taggs@);
    let palette = spec_palette_block(image.palette);
    let first = spec_first_block_at(image.paatype, taggs, palette);
    if slots.len() > MAX_MIPMAPS {
        res == Err::<Vec<u8>, PaaError>(PaaError::TooManyMipmaps)
    } else if !spec_taggs_writable(image.taggs@) {
        res == Err::<Vec<u8>, PaaError>(PaaError::ArithmeticOverflow)
    } else if image.palette is Some && image.palette->Some_0@.len() > 65535 {
        res == Err::<Vec<u8>, PaaError>(PaaError::PaletteTooLarge)
    } else {
        &&& match res {
            Ok(bytes) => exists|blocks: Seq<Seq<u8>>| #[trigger]
                spec_blocks_of(slots, blocks) && spec_offsets_fit(first, blocks) && bytes@
                    == spec_image_bytes(image.paatype, taggs, palette, blocks),
            Err(e) => spec_slots_failure(slots, e) || (e == PaaError::ArithmeticOverflow
                && exists|blocks: Seq<Seq<u8>>| #[trigger]
                spec_blocks_of(slots, blocks) && !spec_offsets_fit(first, blocks)),
        }
        &&& spec_write_owed(image) ==> res is Ok
        &&& forall|k: int| #[trigger]
            spec_first_error_at(slots, k) ==> res is Err && res->Err_0
                == PaaError::InputMipmapErrorWhileEncoding(k as usize, Box::new(slots[k]->Err_0))
    }
}

/// Whether `blocks` holds, for each slot, the record that serializing the
/// mipmap in the slot gives, none of them packed by the block codec.
pub open spec fn spec_records_of(slots: Seq<PaaResult<PaaMipmap>>, blocks: Seq<Seq<u8>>) -> bool {
    &&& blocks.len() == slots.len()
    &&& forall|i: int|
        0 <= i < slots.len() ==> (#[trigger] slots[i]) is Ok && spec_record(slots[i]->Ok_0@)
            == Some(Ok::<Seq<u8>, PaaError>(blocks[i]))
}

/// The file of a container whose mipmaps have the records `blocks`: the
/// format code, the records other than offsets, the offsets record, the
/// palette block, the records and the trailer; or `ArithmeticOverflow` where
/// one of the records starts past the reach of a 32-bit offset.
pub open spec fn spec_image_of_records(image: PaaImage, blocks: Seq<Seq<u8>>) -> Result<
    Seq<u8>,
    PaaError,
> {
    let taggs = taggs_view(image.taggs@);
    let palette = spec_palette_block(image.palette);
    if spec_offsets_fit(spec_first_block_at(image.paatype, taggs, palette), blocks) {
        Ok(spec_image_bytes(image.paatype, taggs, palette, blocks))
    } else {
        Err(PaaError::ArithmeticOverflow)
    }
}

/// Whether `res` is what the records of the mipmaps settle. Where the
/// container has at most fifteen slots, records that can be written and a
/// palette that fits, and serializing each mipmap gives a record without the
/// block codec, `res` is the file made of those records.
pub open spec fn spec_written_of_records(image: PaaImage, res: PaaResult<Vec<u8>>) -> bool {
    forall|blocks: Seq<Seq<u8>>| #[trigger]
        spec_records_of(image.mipmaps@, blocks) && image.mipmaps@.len() <= MAX_MIPMAPS
            && spec_taggs_writable(image.taggs@) && (image.palette is Some
            ==> image.palette->Some_0@.len() <= 65535) ==> bytes_of(res) == spec_image_of_records(
            image,
            blocks,
        )
}

/// A record of a mipmap is at most [`MAX_RECORD_LEN`] bytes long.
pub proof fn lemma_block_len(m: MipmapView, block: Seq<u8>)
    requires
        spec_block_of(m, block),
    ensures
        block.len() <= MAX_RECORD_LEN,
{
    assert(spec_header(m).len() <= 8);
}

/// The records of at most `i` slots are together at most `i` times
/// [`MAX_RECORD_LEN`] bytes long.
pub proof fn lemma_total_len(slots: Seq<PaaResult<PaaMipmap>>, blocks: Seq<Seq<u8>>, i: int)
    requires
        spec_blocks_of(slots, blocks),
        0 <= i <= blocks.len(),
    ensures
        spec_total_len(blocks.take(i)) <= i * MAX_RECORD_LEN,
    decreases i,
{
    if i > 0 {
        lemma_total_len(slots, blocks, i - 1);
        let part = blocks.take(i);
        assert(part.drop_last() =~= blocks.take(i - 1));
        assert(part.last() == blocks[i - 1]);
        assert(slots[i - 1] is Ok);
        lemma_block_len(slots[i - 1]->Ok_0@, blocks[i - 1]);
        assert(i * MAX_RECORD_LEN == (i - 1) * MAX_RECORD_LEN + MAX_RECORD_LEN)
            by (nonlinear_arith);
    } else {
        assert(blocks.take(0) =~= Seq::<Seq<u8>>::empty());
    }
}

/// With room at the head, the records of at most fifteen slots all start
/// within the reach of a 32-bit offset.
pub proof fn lemma_head_room_fits(
    slots: Seq<PaaResult<PaaMipmap>>,
    blocks: Seq<Seq<u8>>,
    first: nat,
)
    requires
        spec_blocks_of(slots, blocks),
        slots.len() <= MAX_MIPMAPS,
        spec_head_room(first),
    ensures
        spec_offsets_fit(first, blocks),
{
    assert forall|i: int| 0 <= i < blocks.len() implies #[trigger] spec_block_start(
        first,
        blocks,
        i,
    ) <= u32::MAX by {
        lemma_total_len(slots, blocks, i);
        assert(i * MAX_RECORD_LEN <= (MAX_MIPMAPS - 1) * MAX_RECORD_LEN) by (nonlinear_arith)
            requires
                0 <= i <= MAX_MIPMAPS - 1,
        ;
    }
}

impl Clone for PaaImage {
    fn clone(&self) -> (c: Self)
        ensures
            c.paatype == self.paatype,
            taggs_view(c.taggs@) == taggs_view(self.taggs@),
            c.palette is Some == self.palette is Some,
            c.palette is Some ==> c.palette->Some_0@ == self.palette->Some_0@,
            c.mipmaps@.len() == self.mipmaps@.len(),
            forall|i: int|
                0 <= i < self.mipmaps@.len() ==> match #[trigger] self.mipmaps@[i] {
                    Ok(m) => c.mipmaps@[i] is Ok && c.mipmaps@[i]->Ok_0@ == m@,
                    Err(e) => c.mipmaps@[i] == Err::<PaaMipmap, PaaError>(e),
                },
    {
        let mut taggs: Vec<Tagg> = Vec::new();
        let mut i: usize = 0;
        while i < self.taggs.len()
            invariant
                i <= self.taggs@.len(),
                taggs@.len() == i,
                forall|j: int| 0 <= j < i ==> (#[trigger] taggs@[j])@ == self.taggs@[j]@,
            decreases self.taggs@.len() - i,
        {
            taggs.push(self.taggs[i].clone());
            i = i + 1;
        }
        assert(taggs_view(taggs@) =~= taggs_view(self.taggs@));
        let palette = match &self.palette {
            Some(p) => Some(p.clone()),
            None => None,
        };
        let mut mipmaps: Vec<PaaResult<PaaMipmap>> = Vec::new();
        let mut k: usize = 0;
        while k < self.mipmaps.len()
            invariant
                k <= self.mipmaps@.len(),
                mipmaps@.len() == k,
                forall|j: int|
                    0 <= j < k ==> match #[trigger] self.mipmaps@[j] {
                        Ok(m) => mipmaps@[j] is Ok && mipmaps@[j]->Ok_0@ == m@,
                        Err(e) => mipmaps@[j] == Err::<PaaMipmap, PaaError>(e),
                    },
            decreases self.mipmaps@.len() - k,
        {
            let slot = match &self.mipmaps[k] {
                Ok(m) => Ok(m.clone()),
                Err(e) => Err(e.duplicate()),
            };
            mipmaps.push(slot);
            k = k + 1;
        }
        PaaImage { paatype: self.paatype, taggs, palette, mipmaps }
    }
}

impl Default for PaaImage {
    fn default() -> (image: Self)
        ensures
            image.paatype == PaaType::Dxt5,
            image.taggs@.len() == 0,
            image.palette is None,
            image.mipmaps@.len() == 0,
    {
        PaaImage { paatype: PaaType::Dxt5, taggs: Vec::new(), palette: None, mipmaps: Vec::new() }
    }
}

/// The offsets of the last offsets record among `taggs`, or none.
pub fn offsets_tag(taggs: &Vec<Tagg>) -> (offsets: Vec<u32>)
    ensures
        offsets@ == spec_offsets_tag(taggs_view(taggs@)),
{
    let mut offsets: Vec<u32> = Vec::new();
    let mut i: usize = 0;
    let ghost views = taggs_view(taggs@);
    assert(views.take(0) =~= Seq::<TaggView>::empty());
    while i < taggs.len()
        invariant
            i <= taggs@.len(),
            views == taggs_view(taggs@),
            offsets@ == spec_offsets_tag(views.take(i as int)),
        decreases taggs@.len() - i,
    {
        proof {
            let next = views.take(i + 1);
            assert(next.drop_last() =~= views.take(i as int));
            assert(next.last() == taggs@[i as int]@);
        }
        match &taggs[i] {
            Tagg::Offs { offsets: found } => {
                offsets = vstd::slice::slice_to_vec(found.as_slice());
            },
            _ => {},
        }
        i = i + 1;
    }
    assert(views.take(taggs@.len() as int) =~= views);
    offsets
}

/// Whether every offset lies before the end of an input of `len` bytes.
pub fn offsets_within(offsets: &[u32], len: usize) -> (r: bool)
    ensures
        r == spec_offsets_within(offsets@, len as nat),
{
    let mut i: usize = 0;
    while i < offsets.len()
        invariant
            i <= offsets@.len(),
            forall|j: int| 0 <= j < i ==> #[trigger] offsets@[j] < len,
        decreases offsets@.len() - i,
    {
        if offsets[i] as usize >= len {
            return false;
        }
        i = i + 1;
    }
    true
}

/// Whether each record has a payload whose length fits its length field.
fn taggs_writable(taggs: &Vec<Tagg>) -> (r: bool)
    ensures
        r == spec_taggs_writable(taggs@),
{
    let mut t: usize = 0;
    while t < taggs.len()
        invariant
            t <= taggs@.len(),
            forall|j: int| 0 <= j < t ==> (#[trigger] taggs@[j]).spec_writable(),
        decreases taggs@.len() - t,
    {
        match &taggs[t] {
            Tagg::Proc { code } => {
                if code.text.len() > u32::MAX as usize {
                    assert(!taggs@[t as int].spec_writable());
                    return false;
                }
            },
            _ => {},
        }
        t = t + 1;
    }
    true
}

/// The position at which each block starts when the first starts at
/// `first`, or `None` where one of them does not fit 32 bits.
fn block_offsets(first: usize, blocks: &Vec<Vec<u8>>) -> (res: Option<Vec<u32>>)
    ensures
        match res {
            Some(offsets) => spec_offsets_fit(first as nat, blocks_view(blocks@)) && offsets@
                == Seq::new(
                blocks@.len(),
                |i: int| spec_block_start(first as nat, blocks_view(blocks@), i) as u32,
            ),
            None => !spec_offsets_fit(first as nat, blocks_view(blocks@)),
        },
{
    let ghost views = blocks_view(blocks@);
    let n = blocks.len();
    let mut offsets: Vec<u32> = Vec::new();
    let mut running: usize = first;
    let mut i: usize = 0;
    assert(views.take(0) =~= Seq::<Seq<u8>>::empty());
    while i < n
        invariant
            i <= n,
            n == blocks@.len(),
            views == blocks_view(blocks@),
            offsets@.len() == i,
            i < n ==> running == spec_block_start(first as nat, views, i as int),
            forall|j: int|
                0 <= j < i ==> spec_block_start(first as nat, views, j) <= u32::MAX,
            forall|j: int|
                0 <= j < i ==> #[trigger] offsets@[j] == spec_block_start(first as nat, views, j)
                    as u32,
        decreases n - i,
    {
        if running > u32::MAX as usize {
            assert(spec_block_start(first as nat, views, i as int) > u32::MAX);
            return None;
        }
        offsets.push(running as u32);
        proof {
            let next = views.take(i + 1);
            assert(next.drop_last() =~= views.take(i as int));
            assert(next.last() == blocks@[i as int]@);
            assert(spec_total_len(next) == spec_total_len(views.take(i as int)) + blocks@[i as int]@.len());
        }
        match running.checked_add(blocks[i].len()) {
            Some(v) => {
                running = v;
            },
            None => {
                if i + 1 < n {
                    assert(spec_block_start(first as nat, views, i + 1) > u32::MAX);
                    return None;
                }
            },
        }
        i = i + 1;
    }
    assert(offsets@ =~= Seq::new(
        blocks@.len(),
        |i: int| spec_block_start(first as nat, views, i) as u32,
    ));
    assert(spec_offsets_fit(first as nat, views));
    Some(offsets)
}

/// Appends the bytes of `blocks` in turn.
fn append_blocks(buf: &mut Vec<u8>, blocks: &Vec<Vec<u8>>)
    ensures
        final(buf)@ == old(buf)@ + spec_concat(blocks_view(blocks@)),
{
    let ghost views = blocks_view(blocks@);
    let ghost prefix = buf@;
    let n = blocks.len();
    let mut k: usize = 0;
    assert(views.take(0) =~= Seq::<Seq<u8>>::empty());
    assert(buf@ =~= prefix + spec_concat(views.take(0)));
    while k < n
        invariant
            k <= n,
            n == blocks@.len(),
            views == blocks_view(blocks@),
            buf@ == prefix + spec_concat(views.take(k as int)),
        decreases n - k,
    {
        buf.extend_from_slice(blocks[k].as_slice());
        proof {
            let next = views.take(k + 1);
            assert(next.drop_last() =~= views.take(k as int));
            assert(next.last() == blocks@[k as int]@);
            assert(buf@ =~= prefix + spec_concat(next));
        }
        k = k + 1;
    }
    assert(views.take(n as int) =~= views);
}

impl PaaImage {
    /// Reads a container at the position of `input`.
    ///
    /// The records are read until what follows does not start with the
    /// signature, carries an unknown name or is too short for the head of a
    /// record; any other failure among them fails the call.
    /// A palette with colours fails it with `UnknownPaaType` for the indexed
    /// format, which is not supported. With an offsets record the mipmaps are
    /// read at its offsets, and an offset at or past the end of the input
    /// fails the call with `MipmapOffsetBeyondEof`; without one they are read
    /// one after another until no record is found. A mipmap that cannot be
    /// read fills its slot with the reason and does not fail the call.
    pub fn read_from(input: &mut PaaReader) -> (res: PaaResult<Self>)
        ensures
            final(input).data == old(input).data,
            match spec_read_image(old(input).data@, old(input).pos as int) {
                Ok(outcome) => res is Ok && image_matches(res->Ok_0, outcome),
                Err(e) => res is Err && res->Err_0 == e,
            },
    {
        let ghost data = input.data@;
        let ghost pos = input.pos as int;
        let code = match input.read_u16() {
            Ok(c) => c,
            Err(e) => {
                return Err(e);
            },
        };
        let paatype = match PaaType::from_code(code) {
            Some(t) => t,
            None => {
                let raw: [u8; 2] = [(code % 256) as u8, (code / 256) as u8];
                proof {
                    crate::bytes::lemma_u16_le_of_le16(data[pos], data[pos + 1]);
                    assert(u16_le(code)[0] == data[pos]);
                    assert(u16_le(code)[1] == data[pos + 1]);
                    assert(raw == [data[pos], data[pos + 1]]) by {
                        assert(raw@ =~= [data[pos], data[pos + 1]]@);
                    }
                }
                return Err(PaaError::UnknownPaaType(raw));
            },
        };
        let (taggs, stop) = match Tagg::read_taggs_from(input) {
            Ok(r) => r,
            Err(e) => {
                return Err(e);
            },
        };
        match stop {
            PaaError::UnexpectedTaggSignature => {},
            PaaError::UnknownTaggType(_) => {},
            PaaError::UnexpectedEof => {
                let at = input.position();
                if at <= input.data.len() && input.data.len() - at >= 12 {
                    return Err(PaaError::UnexpectedEof);
                }
            },
            other => {
                return Err(other);
            },
        }
        let palette = match PaaPalette::read_from(input) {
            Ok(p) => p,
            Err(e) => {
                return Err(e);
            },
        };
        if palette.is_some() {
            return Err(PaaError::UnknownPaaType([0x47u8, 0x47u8]));
        }
        let offsets = offsets_tag(&taggs);
        let mipmaps = if offsets.len() == 0 {
            PaaMipmap::read_from_until_eof(input, paatype)
        } else {
            if !offsets_within(offsets.as_slice(), input.data.len()) {
                return Err(PaaError::MipmapOffsetBeyondEof);
            }
            let slots = PaaMipmap::read_from_with_offsets(input, offsets.as_slice(), paatype);
            assert(slots_match(slots@, spec_read_at_offsets(data, offsets@, paatype)));
            slots
        };
        Ok(PaaImage { paatype, taggs, palette: None, mipmaps })
    }

    /// Reads a container from the start of `input`.
    pub fn from_bytes(input: &[u8]) -> (res: PaaResult<Self>)
        ensures
            match spec_read_image(input@, 0) {
                Ok(outcome) => res is Ok && image_matches(res->Ok_0, outcome),
                Err(e) => res is Err && res->Err_0 == e,
            },
    {
        let mut reader = PaaReader::new(input);
        Self::read_from(&mut reader)
    }

    /// Serializes the container, as [`PaaImage::to_bytes`] does.
    pub fn as_bytes(&self) -> (res: PaaResult<Vec<u8>>)
        ensures
            spec_written(*self, res),
            spec_written_of_records(*self, res),
    {
        self.to_bytes()
    }

    /// The part of the file before the offsets record: the format code and
    /// the records other than offsets.
    fn head_bytes(&self) -> (buf: Vec<u8>)
        requires
            spec_taggs_writable(self.taggs@),
        ensures
            buf@ == spec_image_head(self.paatype, taggs_view(self.taggs@)),
    {
        let mut buf: Vec<u8> = vstd::slice::slice_to_vec(self.paatype.to_bytes().as_slice());
        let ghost views = taggs_view(self.taggs@);
        let mut i: usize = 0;
        assert(views.take(0) =~= Seq::<TaggView>::empty());
        assert(buf@ =~= u16_le(self.paatype.spec_code()) + spec_kept_taggs(views.take(0)));
        while i < self.taggs.len()
            invariant
                i <= self.taggs@.len(),
                views == taggs_view(self.taggs@),
                spec_taggs_writable(self.taggs@),
                buf@ == u16_le(self.paatype.spec_code()) + spec_kept_taggs(views.take(i as int)),
            decreases self.taggs@.len() - i,
        {
            let ghost before = buf@;
            proof {
                let next = views.take(i + 1);
                assert(next.drop_last() =~= views.take(i as int));
                assert(next.last() == self.taggs@[i as int]@);
            }
            match &self.taggs[i] {
                Tagg::Offs { .. } => {
                    assert(buf@ =~= u16_le(self.paatype.spec_code()) + spec_kept_taggs(
                        views.take(i + 1),
                    ));
                },
                other => {
                    let bytes = other.to_bytes();
                    buf.extend_from_slice(bytes.as_slice());
                    assert(buf@ =~= u16_le(self.paatype.spec_code()) + spec_kept_taggs(
                        views.take(i + 1),
                    ));
                },
            }
            i = i + 1;
        }
        assert(views.take(self.taggs@.len() as int) =~= views);
        buf
    }

    /// The record of each mipmap, or the reason the first of them could not
    /// be serialized.
    pub fn mipmap_blocks(&self) -> (res: PaaResult<Vec<Vec<u8>>>)
        ensures
            spec_blocks_made(self.mipmaps@, res),
    {
        let mut blocks: Vec<Vec<u8>> = Vec::new();
        let n = self.mipmaps.len();
        let mut i: usize = 0;
        while i < n
            invariant
                i <= n,
                n == self.mipmaps@.len(),
                blocks@.len() == i,
                forall|j: int|
                    0 <= j < i ==> (#[trigger] self.mipmaps@[j]) is Ok && spec_block_of(
                        self.mipmaps@[j]->Ok_0@,
                        blocks@[j]@,
                    ),
            decreases n - i,
        {
            match &self.mipmaps[i] {
                Err(inner) => {
                    let e = PaaError::InputMipmapErrorWhileEncoding(i, Box::new(inner.duplicate()));
                    proof {
                        assert(self.mipmaps@[i as int] is Err);
                        assert(spec_slots_failure(self.mipmaps@, e));
                        assert forall|k: int| #[trigger]
                            spec_first_error_at(self.mipmaps@, k) implies k == i by {
                            if k < i {
                                assert(self.mipmaps@[k] is Ok);
                            }
                            if k > i {
                                assert(self.mipmaps@[i as int] is Ok);
                            }
                        }
                    }
                    return Err(e);
                },
                Ok(m) => {
                    let record = m.to_bytes();
                    proof {
                        lemma_serialized(m@, record);
                    }
                    match record {
                        Ok(block) => {
                            blocks.push(block);
                        },
                        Err(inner) => {
                            let e = PaaError::MipmapErrorWhileSerializing(Box::new(inner));
                            proof {
                                assert(self.mipmaps@[i as int] is Ok);
                                assert(!spec_serializes(m@));
                                assert(spec_slots_failure(self.mipmaps@, e));
                                assert forall|k: int| #[trigger]
                                    spec_first_error_at(self.mipmaps@, k) implies false by {
                                    if k < i {
                                        assert(self.mipmaps@[k] is Ok);
                                    }
                                    if k > i {
                                        assert(self.mipmaps@[i as int] is Ok);
                                        assert(spec_serializes(self.mipmaps@[i as int]->Ok_0@));
                                    }
                                }
                            }
                            return Err(e);
                        },
                    }
                },
            }
            i = i + 1;
        }
        proof {
            assert(spec_blocks_of(self.mipmaps@, blocks_view(blocks@)));
            assert forall|k: int| #[trigger] spec_first_error_at(self.mipmaps@, k) implies false by {
                assert(self.mipmaps@[k] is Ok);
            }
        }
        Ok(blocks)
    }

    /// Serializes the container. An offsets record among the tags is left
    /// out; the one written is made from where the mipmap records come to
    /// lie. Nothing is written unless everything can be.
    ///
    /// Fails with `TooManyMipmaps` for more than fifteen slots, with
    /// `ArithmeticOverflow` for a record whose payload is too long for its
    /// length field or a mipmap that starts past the reach of a 32-bit
    /// offset, with `PaletteTooLarge` for a palette of more than 65535
    /// colours, with `InputMipmapErrorWhileEncoding` for a slot that holds an
    /// error, and with `MipmapErrorWhileSerializing` for a mipmap that cannot
    /// be serialized.
    ///
    /// Where no mipmap is packed by the block codec the file is made of the
    /// records that serializing each mipmap gives.
    pub fn to_bytes(&self) -> (res: PaaResult<Vec<u8>>)
        ensures
            spec_written(*self, res),
            spec_written_of_records(*self, res),
    {
        let res = self.write();
        proof {
            assert forall|blocks: Seq<Seq<u8>>| #[trigger]
                spec_records_of(self.mipmaps@, blocks) && self.mipmaps@.len() <= MAX_MIPMAPS
                    && spec_taggs_writable(self.taggs@) && (self.palette is Some
                    ==> self.palette->Some_0@.len() <= 65535) implies bytes_of(res)
                == spec_image_of_records(*self, blocks) by {
                lemma_written_holds_records(*self, res, blocks);
            }
        }
        res
    }

    /// Serializes the container into a file.
    fn write(&self) -> (res: PaaResult<Vec<u8>>)
        ensures
            spec_written(*self, res),
    {
        if self.mipmaps.len() > MAX_MIPMAPS {
            return Err(PaaError::TooManyMipmaps);
        }
        if !taggs_writable(&self.taggs) {
            return Err(PaaError::ArithmeticOverflow);
        }
        let mut buf = self.head_bytes();
        let palette_block: Vec<u8> = match &self.palette {
            Some(p) => match p.to_bytes() {
                Ok(b) => b,
                Err(e) => {
                    return Err(e);
                },
            },
            None => {
                let b: Vec<u8> = vec![0u8, 0u8];
                assert(b@ =~= seq![0u8, 0u8]);
                b
            },
        };
        let ghost slots = self.mipmaps@;
        let ghost first = spec_first_block_at(
            self.paatype,
            taggs_view(self.taggs@),
            palette_block@,
        );
        assert(palette_block@ == spec_palette_block(self.palette));
        let blocks = match self.mipmap_blocks() {
            Ok(b) => b,
            Err(e) => {
                return Err(e);
            },
        };
        let ghost views = blocks_view(blocks@);
        let n = blocks.len();
        proof {
            if spec_head_room(first) {
                lemma_head_room_fits(slots, views, first);
            }
        }
        let start: Option<usize> = match buf.len().checked_add(OFFSETS_RECORD_LEN) {
            Some(v) => v.checked_add(palette_block.len()),
            None => None,
        };
        let offsets: Vec<u32> = match start {
            Some(at) => match block_offsets(at, &blocks) {
                Some(o) => o,
                None => {
                    assert(spec_blocks_of(slots, views) && !spec_offsets_fit(first, views));
                    return Err(PaaError::ArithmeticOverflow);
                },
            },
            None => {
                if n > 0 {
                    proof {
                        assert(views.take(0) =~= Seq::<Seq<u8>>::empty());
                        assert(spec_block_start(first, views, 0) > u32::MAX);
                        assert(spec_blocks_of(slots, views) && !spec_offsets_fit(first, views));
                    }
                    return Err(PaaError::ArithmeticOverflow);
                }
                Vec::new()
            },
        };
        let ghost wire_offsets = Seq::new(
            views.len(),
            |i: int| spec_block_start(first, views, i) as u32,
        );
        assert(offsets@ =~= wire_offsets);
        assert(spec_offsets_fit(first, views));
        let record = Tagg::Offs { offsets };
        let record_bytes = record.to_bytes();
        proof {
            lemma_u32s_le_len(spec_pad16(wire_offsets));
        }
        buf.extend_from_slice(record_bytes.as_slice());
        buf.extend_from_slice(palette_block.as_slice());
        append_blocks(&mut buf, &blocks);
        let trailer: Vec<u8> = vec![0u8, 0u8, 0u8, 0u8, 0u8, 0u8];
        assert(trailer@ =~= seq![0u8, 0u8, 0u8, 0u8, 0u8, 0u8]);
        buf.extend_from_slice(trailer.as_slice());
        proof {
            assert(spec_offsets_fit(first, views));
            assert(buf@ =~= spec_image_bytes(
                self.paatype,
                taggs_view(self.taggs@),
                spec_palette_block(self.palette),
                views,
            ));
            assert(spec_blocks_of(slots, views));
        }
        Ok(buf)
    }
}

} // verus!
