//! What reading makes of a container that was written: the format, the
//! records with the offsets record made at writing, and the mipmaps.

use vstd::prelude::*;
use crate::bytes::{le16_at, le32_at, lemma_le_round_trip, u16_le, u32_le};
use crate::error::{PaaError, PaaResult};
use crate::image::{
    spec_blocks_of, spec_concat, spec_block_start, spec_first_block_at, spec_image_bytes,
    spec_image_head, spec_kept_taggs, spec_offsets_fit, spec_offsets_tag, spec_offsets_within,
    spec_image_of_records, spec_palette_block, spec_read_at_offsets, spec_read_image,
    spec_records_of, spec_slots_failure,
    spec_taggs_end_at, spec_taggs_writable, spec_total_len, spec_written, ImageOutcome,
    PaaImage, MAX_MIPMAPS,
};
use crate::mipmap::{
    bytes_of, spec_block_of, spec_is_empty, spec_read_end, spec_read_mipmap, spec_read_record,
    spec_record, spec_serializes, ChecksumPolicy, MipmapOutcome, MipmapView, PaaMipmap, RecordView,
};
use crate::mipmap_proofs::{
    lemma_block_reads_back, spec_scheme_expressible, spec_sides_plain, spec_writes_sentinel,
};
use crate::paatype::PaaType;
use crate::palette::spec_read_palette;
use crate::tagg::{
    lemma_tagg_round_trip, lemma_u32s_le_len, spec_is_valid_name, spec_name,
    spec_pad16, spec_payload, spec_read_tagg, spec_read_taggs, spec_signature,
    spec_survives_wire, spec_tagg_bytes, taggs_view, TaggView,
};

verus! {

/// Reading a record at the end of a prefix is reading it at the start of
/// what follows the prefix, with the positions moved by the length of the
/// prefix.
pub proof fn lemma_read_record_shift(pre: Seq<u8>, d: Seq<u8>, paatype: PaaType)
    ensures
        match spec_read_record(d, 0, paatype) {
            Ok(r) => spec_read_record(pre + d, pre.len() as int, paatype) == Ok::<
                RecordView,
                PaaError,
            >(
                RecordView {
                    width: r.width,
                    height: r.height,
                    paatype: r.paatype,
                    compression: r.compression,
                    predicted: r.predicted,
                    payload: r.payload,
                    end: r.end + pre.len(),
                },
            ),
            Err(e) => spec_read_record(pre + d, pre.len() as int, paatype) == Err::<
                RecordView,
                PaaError,
            >(e),
        },
        spec_read_end(pre + d, pre.len() as int, paatype) == spec_read_end(d, 0, paatype)
            + pre.len(),
{
    let data = pre + d;
    let p = pre.len() as int;
    assert forall|k: int| 0 <= k < d.len() implies #[trigger] data[p + k] == d[k] by {}
    if d.len() >= 4 {
        assert(data[p + 0] == d[0] && data[p + 1] == d[1] && data[p + 2] == d[2] && data[p + 3]
            == d[3]);
        assert(le16_at(data, p) == le16_at(d, 0));
        assert(le16_at(data, p + 2) == le16_at(d, 2));
    }
    if d.len() >= 8 {
        assert(data[p + 4] == d[4] && data[p + 5] == d[5] && data[p + 6] == d[6] && data[p + 7]
            == d[7]);
        assert(le16_at(data, p + 4) == le16_at(d, 4));
        assert(le16_at(data, p + 6) == le16_at(d, 6));
    }
    if d.len() >= 7 {
        assert(data[p + 4] == d[4] && data[p + 5] == d[5] && data[p + 6] == d[6]);
    }
    if d.len() >= 11 {
        assert(data[p + 8] == d[8] && data[p + 9] == d[9] && data[p + 10] == d[10]);
    }
    match spec_read_record(d, 0, paatype) {
        Ok(r) => {
            assert(data.subrange(p + r.end - r.payload.len(), p + r.end) =~= r.payload);
        },
        Err(_) => {},
    }
}

/// Every record that serialization may give for a mipmap is read back as the
/// mipmap wherever it stands in the input: the law of
/// [`lemma_block_reads_back`] at any position.
pub proof fn lemma_block_reads_back_at(
    m: MipmapView,
    pre: Seq<u8>,
    block: Seq<u8>,
    rest: Seq<u8>,
    paatype: PaaType,
    policy: ChecksumPolicy,
)
    requires
        spec_block_of(m, block),
        !spec_is_empty(m.width, m.height),
        spec_scheme_expressible(m),
        spec_sides_plain(m),
        paatype == m.paatype || spec_writes_sentinel(m),
    ensures
        spec_read_mipmap(pre + (block + rest), pre.len() as int, paatype, policy)
            == MipmapOutcome::Read(m),
        spec_read_end(pre + (block + rest), pre.len() as int, paatype) == pre.len() + block.len(),
{
    lemma_block_reads_back(m, block, rest, paatype, policy);
    lemma_read_record_shift(pre, block + rest, paatype);
}

/// A record that was written is read back wherever it stands in the input,
/// and reading ends where the record ends.
pub proof fn lemma_tagg_reads_back(t: TaggView, pre: Seq<u8>, rest: Seq<u8>)
    requires
        spec_survives_wire(t),
        spec_payload(t).len() <= u32::MAX,
    ensures
        spec_tagg_bytes(t).len() == 12 + spec_payload(t).len(),
        spec_read_tagg(pre + spec_tagg_bytes(t) + rest, pre.len() as int) == Ok::<
            (TaggView, int),
            PaaError,
        >((t, (pre.len() + spec_tagg_bytes(t).len()) as int)),
{
    let wire = spec_tagg_bytes(t);
    let data = pre + wire + rest;
    let p = pre.len() as int;
    let payload = spec_payload(t);
    let len = payload.len() as u32;
    lemma_le_round_trip(len);
    lemma_tagg_round_trip(t);
    assert(spec_name(t).len() == 4);
    assert(spec_signature().len() == 4);
    assert(wire.len() == 12 + payload.len());
    let head = data.subrange(p, p + 12);
    assert(head =~= spec_signature() + spec_name(t) + u32_le(len));
    assert(head.subrange(0, 4) =~= spec_signature());
    assert(head.subrange(4, 8) =~= spec_name(t));
    assert(spec_is_valid_name(spec_name(t)));
    assert(head[8] == u32_le(len)[0] && head[9] == u32_le(len)[1] && head[10] == u32_le(len)[2]
        && head[11] == u32_le(len)[3]);
    assert(le32_at(head, 8) == len);
    assert(data.subrange(p + 12, p + 12 + len) =~= payload);
}

/// Whether the records of `taggs` are written and read back as they are:
/// none is an offsets record, each survives the wire, and each has a payload
/// whose length fits its length field.
pub open spec fn spec_taggs_kept(taggs: Seq<TaggView>) -> bool {
    forall|i: int|
        0 <= i < taggs.len() ==> !((#[trigger] taggs[i]) is Offs) && spec_survives_wire(taggs[i])
            && spec_payload(taggs[i]).len() <= u32::MAX
}

/// The run of records read from `pos` on, as [`spec_read_taggs`] gives it:
/// the records up to the first that cannot be read, the reason it cannot,
/// and the position it starts at.
#[verifier::opaque]
pub open spec fn spec_scan(data: Seq<u8>, pos: int) -> (Seq<TaggView>, PaaError, int) {
    spec_read_taggs(data, pos)
}

/// Reading a run of records that begins with a record that was written
/// gives that record, and goes on behind it.
pub proof fn lemma_scan_step(t: TaggView, pre: Seq<u8>, rest: Seq<u8>)
    requires
        spec_survives_wire(t),
        spec_payload(t).len() <= u32::MAX,
    ensures
        ({
            let data = pre + spec_tagg_bytes(t) + rest;
            let after = spec_scan(data, (pre.len() + spec_tagg_bytes(t).len()) as int);
            spec_scan(data, pre.len() as int) == (seq![t] + after.0, after.1, after.2)
        }),
{
    reveal(spec_scan);
    lemma_tagg_reads_back(t, pre, rest);
}

/// The bytes of kept records end with the bytes of the last.
pub proof fn lemma_kept_taggs_last(taggs: Seq<TaggView>)
    requires
        spec_taggs_kept(taggs),
        taggs.len() > 0,
    ensures
        spec_taggs_kept(taggs.drop_last()),
        spec_kept_taggs(taggs) == spec_kept_taggs(taggs.drop_last()) + spec_tagg_bytes(
            taggs.last(),
        ),
{
    let front = taggs.drop_last();
    assert forall|i: int| 0 <= i < front.len() implies !((#[trigger] front[i]) is Offs)
        && spec_survives_wire(front[i]) && spec_payload(front[i]).len() <= u32::MAX by {
        assert(front[i] == taggs[i]);
    }
    assert(!(taggs[taggs.len() - 1] is Offs));
}

/// Records that were written one after another are read back in turn, and
/// reading goes on with what follows them.
#[verifier::rlimit(40)]
pub proof fn lemma_taggs_read_back(taggs: Seq<TaggView>, pre: Seq<u8>, rest: Seq<u8>)
    requires
        spec_taggs_kept(taggs),
    ensures
        ({
            let data = pre + spec_kept_taggs(taggs) + rest;
            let after = spec_scan(data, (pre.len() + spec_kept_taggs(taggs).len()) as int);
            spec_scan(data, pre.len() as int) == (taggs + after.0, after.1, after.2)
        }),
    decreases taggs.len(),
{
    let kept = spec_kept_taggs(taggs);
    let data = pre + kept + rest;
    if taggs.len() == 0 {
        assert(taggs + spec_scan(data, pre.len() as int).0 =~= spec_scan(data, pre.len() as int).0);
    } else {
        let front = taggs.drop_last();
        let t = taggs.last();
        let front_bytes = spec_kept_taggs(front);
        let wire = spec_tagg_bytes(t);
        lemma_kept_taggs_last(taggs);
        let end = (pre.len() + front_bytes.len() + wire.len()) as int;
        assert(pre + front_bytes + (wire + rest) =~= data);
        lemma_taggs_read_back(front, pre, wire + rest);
        assert((pre + front_bytes) + wire + rest =~= data);
        assert(spec_survives_wire(taggs[taggs.len() - 1]));
        lemma_scan_step(t, pre + front_bytes, rest);
        let after = spec_scan(data, end);
        assert(front + (seq![t] + after.0) =~= taggs + after.0);
    }
}

/// The run of records ends where the input is too short for the head of a
/// record or does not go on with the signature.
pub proof fn lemma_taggs_end(data: Seq<u8>, at: int)
    requires
        0 <= at,
        at + 12 > data.len() || data[at] == 0,
    ensures
        spec_scan(data, at).0 == Seq::<TaggView>::empty(),
        spec_scan(data, at).2 == at,
        spec_taggs_end_at(data, at, spec_scan(data, at).1),
{
    reveal(spec_scan);
    if at + 12 <= data.len() {
        let head = data.subrange(at, at + 12);
        assert(head.subrange(0, 4)[0] == 0);
        assert(spec_signature()[0] == 0x47);
    }
}

/// The length of the records before block `i` is at most the length of all.
pub proof fn lemma_total_len_grows(blocks: Seq<Seq<u8>>, i: int)
    requires
        0 <= i <= blocks.len(),
    ensures
        spec_total_len(blocks.take(i)) <= spec_total_len(blocks),
        spec_concat(blocks).len() == spec_total_len(blocks),
    decreases blocks.len(),
{
    if blocks.len() > 0 {
        let front = blocks.drop_last();
        if i < blocks.len() {
            lemma_total_len_grows(front, i);
            assert(front.take(i) =~= blocks.take(i));
        } else {
            lemma_total_len_grows(front, i - 1);
            assert(blocks.take(i) =~= blocks);
        }
    } else {
        assert(blocks.take(i) =~= blocks);
    }
}

/// Block `i` stands in the bytes of all blocks after the blocks before it.
pub proof fn lemma_concat_block(blocks: Seq<Seq<u8>>, i: int)
    requires
        0 <= i < blocks.len(),
    ensures
        spec_total_len(blocks.take(i)) + blocks[i].len() <= spec_concat(blocks).len(),
        spec_concat(blocks).subrange(
            spec_total_len(blocks.take(i)) as int,
            (spec_total_len(blocks.take(i)) + blocks[i].len()) as int,
        ) == blocks[i],
    decreases blocks.len(),
{
    let front = blocks.drop_last();
    lemma_total_len_grows(front, front.len() as int);
    assert(front.take(front.len() as int) =~= front);
    let whole = spec_concat(blocks);
    assert(whole == spec_concat(front) + blocks.last());
    if i < blocks.len() - 1 {
        lemma_concat_block(front, i);
        assert(front.take(i) =~= blocks.take(i));
        assert(front[i] == blocks[i]);
        let from = spec_total_len(blocks.take(i)) as int;
        assert(whole.subrange(from, from + blocks[i].len()) =~= spec_concat(front).subrange(
            from,
            from + blocks[i].len(),
        ));
    } else {
        assert(blocks.take(i) =~= front);
        let from = spec_total_len(front) as int;
        assert(whole.subrange(from, from + blocks[i].len()) =~= blocks[i]);
    }
}

/// Whether each of `slots` is a mipmap of a container of format `paatype`
/// that is read back as itself, and `blocks` holds a record for each: the
/// mipmap is not empty, its scheme is one the cues can tell, its sides are
/// not mistaken for the sentinel pair, and its format is that of the
/// container unless it is written with the sentinel pair.
pub open spec fn spec_slots_read_back(
    slots: Seq<MipmapView>,
    blocks: Seq<Seq<u8>>,
    paatype: PaaType,
) -> bool {
    &&& blocks.len() == slots.len()
    &&& forall|i: int|
        0 <= i < slots.len() ==> spec_block_of(#[trigger] slots[i], blocks[i]) && !spec_is_empty(
            slots[i].width,
            slots[i].height,
        ) && spec_scheme_expressible(slots[i]) && spec_sides_plain(slots[i]) && (slots[i].paatype
            == paatype || spec_writes_sentinel(slots[i]))
}

/// The offsets record that is written for `blocks`.
pub open spec fn spec_offsets_written(
    paatype: PaaType,
    taggs: Seq<TaggView>,
    blocks: Seq<Seq<u8>>,
) -> Seq<u32> {
    Seq::new(
        blocks.len(),
        |i: int|
            spec_block_start(spec_first_block_at(paatype, taggs, seq![0u8, 0u8]), blocks, i) as u32,
    )
}

/// The head of a written container is read back: before anything that
/// starts with a zero byte, the format code, the records and the offsets
/// record are read as they were written, and the run of records ends after
/// the offsets record.
#[verifier::rlimit(40)]
pub proof fn lemma_written_head_is_read(
    paatype: PaaType,
    taggs: Seq<TaggView>,
    offsets: Seq<u32>,
    tail: Seq<u8>,
)
    requires
        spec_taggs_kept(taggs),
        spec_survives_wire(TaggView::Offs { offsets }),
        tail.len() >= 1,
        tail[0] == 0,
    ensures
        ({
            let record = TaggView::Offs { offsets };
            let head = spec_image_head(paatype, taggs);
            let data = head + spec_tagg_bytes(record) + tail;
            let scan = spec_scan(data, 2);
            &&& spec_tagg_bytes(record).len() == 76
            &&& data.len() >= 2
            &&& le16_at(data, 0) == paatype.spec_code()
            &&& scan.0 == taggs.push(record)
            &&& scan.2 == head.len() + 76
            &&& spec_taggs_end_at(data, scan.2, scan.1)
        }),
{
    let record = TaggView::Offs { offsets };
    let wire = spec_tagg_bytes(record);
    let code = u16_le(paatype.spec_code());
    let kept = spec_kept_taggs(taggs);
    let head = spec_image_head(paatype, taggs);
    let data = head + wire + tail;
    assert(head == code + kept);
    assert(code.len() == 2);
    lemma_le_round_trip(paatype.spec_code() as u32);
    assert(data[0] == code[0] && data[1] == code[1]);
    lemma_u32s_le_len(spec_pad16(offsets));
    assert(spec_payload(record).len() == 64);
    assert(data =~= code + kept + (wire + tail));
    lemma_taggs_read_back(taggs, code, wire + tail);
    assert(data =~= head + wire + tail);
    lemma_scan_step(record, head, tail);
    let at = (head.len() + wire.len()) as int;
    assert(data[at] == tail[0]);
    lemma_taggs_end(data, at);
    let scan_last = spec_scan(data, at);
    let scan_record = spec_scan(data, head.len() as int);
    assert(scan_record == (seq![record] + scan_last.0, scan_last.1, scan_last.2));
    let scan = spec_scan(data, 2);
    assert(scan.0 =~= taggs.push(record));
}

/// The mipmaps of a written container are read back: where the records of
/// the mipmaps stand one after another from `first` on, each is read at its
/// start as the mipmap it was written for, and each start lies within the
/// input.
pub proof fn lemma_written_mipmaps_are_read(
    front: Seq<u8>,
    back: Seq<u8>,
    slots: Seq<MipmapView>,
    blocks: Seq<Seq<u8>>,
    paatype: PaaType,
)
    requires
        spec_slots_read_back(slots, blocks, paatype),
        spec_offsets_fit(front.len(), blocks),
        back.len() >= 1,
    ensures
        ({
            let data = front + spec_concat(blocks) + back;
            let offsets = Seq::new(
                blocks.len(),
                |i: int| spec_block_start(front.len(), blocks, i) as u32,
            );
            &&& spec_offsets_within(offsets, data.len())
            &&& spec_read_at_offsets(data, offsets, paatype) == Seq::new(
                slots.len(),
                |i: int| MipmapOutcome::Read(slots[i]),
            )
        }),
{
    let first = front.len();
    let body = spec_concat(blocks);
    let data = front + body + back;
    let n = slots.len() as int;
    let offsets = Seq::new(blocks.len(), |i: int| spec_block_start(first, blocks, i) as u32);
    lemma_total_len_grows(blocks, n);
    assert(spec_offsets_within(offsets, data.len())) by {
        assert forall|i: int| 0 <= i < offsets.len() implies #[trigger] offsets[i]
            < data.len() by {
            lemma_total_len_grows(blocks, i);
            assert(spec_block_start(first, blocks, i) <= u32::MAX);
        }
    }
    let read = spec_read_at_offsets(data, offsets, paatype);
    let expected = Seq::new(slots.len(), |i: int| MipmapOutcome::Read(slots[i]));
    assert(read =~= expected) by {
        assert forall|i: int| 0 <= i < n implies #[trigger] read[i] == expected[i] by {
            lemma_total_len_grows(blocks, i);
            lemma_concat_block(blocks, i);
            assert(spec_block_start(first, blocks, i) <= u32::MAX);
            let from = (first + spec_total_len(blocks.take(i))) as int;
            let to = from + blocks[i].len();
            assert(offsets[i] == from);
            let pre = data.take(from);
            let rest = data.skip(to);
            assert(data.subrange(from, to) =~= body.subrange(from - first, to - first));
            assert(data =~= pre + (blocks[i] + rest));
            lemma_block_reads_back_at(
                slots[i],
                pre,
                blocks[i],
                rest,
                paatype,
                ChecksumPolicy::Lenient,
            );
        }
    }
}

/// Whether `data` is read, from its start, as the container `outcome`.
#[verifier::opaque]
pub open spec fn spec_reads_as(data: Seq<u8>, outcome: ImageOutcome) -> bool {
    spec_read_image(data, 0) == Ok::<ImageOutcome, PaaError>(outcome)
}

/// A file made of a head, an offsets record, an empty palette block and
/// more is read as the format and the records of the head with that offsets
/// record, and what is read at the offsets, provided they lie within the
/// file.
#[verifier::rlimit(40)]
pub proof fn lemma_written_image_is_read(
    paatype: PaaType,
    taggs: Seq<TaggView>,
    offsets: Seq<u32>,
    body: Seq<u8>,
    outcomes: Seq<MipmapOutcome>,
)
    requires
        spec_taggs_kept(taggs),
        offsets.len() >= 1,
        spec_survives_wire(TaggView::Offs { offsets }),
        spec_offsets_within(
            offsets,
            (spec_image_head(paatype, taggs) + spec_tagg_bytes(TaggView::Offs { offsets })
                + seq![0u8, 0u8] + body).len(),
        ),
        spec_read_at_offsets(
            spec_image_head(paatype, taggs) + spec_tagg_bytes(TaggView::Offs { offsets })
                + seq![0u8, 0u8] + body,
            offsets,
            paatype,
        ) == outcomes,
    ensures
        spec_reads_as(
            spec_image_head(paatype, taggs) + spec_tagg_bytes(TaggView::Offs { offsets })
                + seq![0u8, 0u8] + body,
            ImageOutcome { paatype, taggs: taggs.push(TaggView::Offs { offsets }), mipmaps: outcomes },
        ),
{
    reveal(spec_reads_as);
    let palette = seq![0u8, 0u8];
    let record = TaggView::Offs { offsets };
    let wire = spec_tagg_bytes(record);
    let head = spec_image_head(paatype, taggs);
    let data = head + wire + palette + body;
    let tail = palette + body;
    assert(tail[0] == 0 && tail[1] == 0);
    assert(data =~= head + wire + tail);
    lemma_written_head_is_read(paatype, taggs, offsets, tail);
    let scan = spec_read_taggs(data, 2);
    assert(scan == spec_scan(data, 2)) by {
        reveal(spec_scan);
    }
    let at = scan.2;
    assert(at == head.len() + 76);
    assert(PaaType::spec_from_code(paatype.spec_code()) == Some(paatype));
    assert(data[at] == tail[0] && data[at + 1] == tail[1]);
    assert(le16_at(data, at) == 0);
    assert(spec_read_palette(data, at) == Ok::<
        (Option<Seq<crate::pixel::Bgr888Pixel>>, int),
        PaaError,
    >((None, at + 2)));
    let read_taggs = taggs.push(record);
    assert(read_taggs.last() == record);
    assert(spec_offsets_tag(read_taggs) == offsets);
}

/// The file of a container without a palette, with records that are kept
/// and from one to fifteen mipmaps that are read back as themselves, is read
/// as the container with the offsets record that was written.
#[verifier::rlimit(40)]
pub proof fn lemma_written_image_reads_as(
    paatype: PaaType,
    taggs: Seq<TaggView>,
    slots: Seq<MipmapView>,
    blocks: Seq<Seq<u8>>,
)
    requires
        spec_taggs_kept(taggs),
        1 <= slots.len() <= MAX_MIPMAPS,
        spec_slots_read_back(slots, blocks, paatype),
        spec_offsets_fit(spec_first_block_at(paatype, taggs, seq![0u8, 0u8]), blocks),
    ensures
        spec_reads_as(
            spec_image_bytes(paatype, taggs, seq![0u8, 0u8], blocks),
            ImageOutcome {
                paatype,
                taggs: taggs.push(
                    TaggView::Offs { offsets: spec_offsets_written(paatype, taggs, blocks) },
                ),
                mipmaps: Seq::new(slots.len(), |i: int| MipmapOutcome::Read(slots[i])),
            },
        ),
{
    let palette = seq![0u8, 0u8];
    let trailer = seq![0u8, 0u8, 0u8, 0u8, 0u8, 0u8];
    let first = spec_first_block_at(paatype, taggs, palette);
    let offsets = spec_offsets_written(paatype, taggs, blocks);
    let record = TaggView::Offs { offsets };
    let wire = spec_tagg_bytes(record);
    let head = spec_image_head(paatype, taggs);
    let data = spec_image_bytes(paatype, taggs, palette, blocks);
    let front = head + wire + palette;
    let body = spec_concat(blocks) + trailer;
    lemma_u32s_le_len(spec_pad16(offsets));
    assert(wire.len() == 76);
    assert(front.len() == first);
    assert(data =~= front + spec_concat(blocks) + trailer);
    assert(data =~= head + wire + palette + body);
    lemma_written_mipmaps_are_read(front, trailer, slots, blocks, paatype);
    assert(offsets =~= Seq::new(
        blocks.len(),
        |i: int| spec_block_start(front.len(), blocks, i) as u32,
    ));
    assert(spec_survives_wire(record)) by {
        assert forall|i: int| 0 <= i < offsets.len() implies #[trigger] offsets[i] != 0 by {
            assert(spec_block_start(first, blocks, i) <= u32::MAX);
            assert(spec_block_start(first, blocks, i) >= first);
        }
    }
    lemma_written_image_is_read(
        paatype,
        taggs,
        offsets,
        body,
        Seq::new(slots.len(), |i: int| MipmapOutcome::Read(slots[i])),
    );
}

/// A container that was written is read back. For a container without a
/// palette, with records that are kept and from one to fifteen mipmaps that
/// are read back as themselves, every file that serialization may give is
/// read as a container of the same format, with the same records followed by
/// the offsets record that was written, and with the same mipmaps.
pub proof fn lemma_image_round_trip(
    paatype: PaaType,
    taggs: Seq<TaggView>,
    slots: Seq<MipmapView>,
    blocks: Seq<Seq<u8>>,
)
    requires
        spec_taggs_kept(taggs),
        1 <= slots.len() <= MAX_MIPMAPS,
        spec_slots_read_back(slots, blocks, paatype),
        spec_offsets_fit(spec_first_block_at(paatype, taggs, seq![0u8, 0u8]), blocks),
    ensures
        spec_read_image(spec_image_bytes(paatype, taggs, seq![0u8, 0u8], blocks), 0) == Ok::<
            ImageOutcome,
            PaaError,
        >(
            ImageOutcome {
                paatype,
                taggs: taggs.push(
                    TaggView::Offs { offsets: spec_offsets_written(paatype, taggs, blocks) },
                ),
                mipmaps: Seq::new(slots.len(), |i: int| MipmapOutcome::Read(slots[i])),
            },
        ),
{
    lemma_written_image_reads_as(paatype, taggs, slots, blocks);
    reveal(spec_reads_as);
}

/// The file of a container is made of the records of its mipmaps. Where
/// none of its mipmaps is packed by the block codec and each can be
/// serialized, what serializing the container gives is settled: for a
/// container of at most fifteen mipmaps, with records that can be written
/// and a palette that fits, it is the head, the offsets record, the palette,
/// the records that serializing each mipmap gives, and the trailer; or
/// `ArithmeticOverflow` where one of those records starts past the reach of
/// a 32-bit offset.
pub proof fn lemma_written_holds_records(
    image: PaaImage,
    res: PaaResult<Vec<u8>>,
    blocks: Seq<Seq<u8>>,
)
    requires
        spec_written(image, res),
        image.mipmaps@.len() <= MAX_MIPMAPS,
        spec_taggs_writable(image.taggs@),
        image.palette is Some ==> image.palette->Some_0@.len() <= 65535,
        spec_records_of(image.mipmaps@, blocks),
    ensures
        bytes_of(res) == spec_image_of_records(image, blocks),
{
    let slots = image.mipmaps@;
    let taggs = taggs_view(image.taggs@);
    let palette = spec_palette_block(image.palette);
    let first = spec_first_block_at(image.paatype, taggs, palette);
    assert forall|made: Seq<Seq<u8>>| spec_blocks_of(slots, made) implies made == blocks by {
        assert forall|i: int| 0 <= i < slots.len() implies made[i] == blocks[i] by {
            assert(slots[i] is Ok);
            assert(spec_block_of(slots[i]->Ok_0@, made[i]));
        }
        assert(made =~= blocks);
    }
    match res {
        Ok(bytes) => {
            let made = choose|made: Seq<Seq<u8>>| #[trigger]
                spec_blocks_of(slots, made) && spec_offsets_fit(first, made) && bytes@
                    == spec_image_bytes(image.paatype, taggs, palette, made);
            assert(made == blocks);
        },
        Err(e) => {
            assert(!spec_slots_failure(slots, e)) by {
                assert forall|i: int| 0 <= i < slots.len() implies (#[trigger] slots[i]) is Ok
                    && spec_serializes(slots[i]->Ok_0@) by {
                    assert(slots[i] is Ok);
                    assert(spec_record(slots[i]->Ok_0@) == Some(
                        Ok::<Seq<u8>, PaaError>(blocks[i]),
                    ));
                }
            }
            let made = choose|made: Seq<Seq<u8>>| #[trigger]
                spec_blocks_of(slots, made) && !spec_offsets_fit(first, made);
            assert(made == blocks);
        },
    }
}

} // verus!
