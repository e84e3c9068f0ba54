//! Block-compressed surfaces that store their levels one after another,
//! largest first, as DirectX surface files do.

use vstd::prelude::*;
use crate::error::{PaaError, PaaResult};
use crate::mipmap::{spec_suggest_compression, MipmapView, PaaMipmap};
use crate::paatype::PaaType;

verus! {

/// The views of the mipmaps of `levels`.
pub open spec fn levels_view(levels: Seq<PaaMipmap>) -> Seq<MipmapView> {
    Seq::new(levels.len(), |i: int| levels[i]@)
}

/// The mipmaps found in `data` from `cursor` on, where the next level has
/// the given sides and `size` bytes and at most `count` levels are left.
///
/// A level with a side below 4 ends the series. A level with a side that is
/// no multiple of 4, or with fewer bytes left than its size, fails it. Each
/// level has half the sides and a quarter of the bytes of the one before.
pub open spec fn spec_split_levels(
    paatype: PaaType,
    width: u16,
    height: u16,
    size: nat,
    count: nat,
    data: Seq<u8>,
    cursor: nat,
) -> Result<Seq<MipmapView>, PaaError>
    decreases count,
{
    if count == 0 || width < 4 || height < 4 {
        Ok(Seq::<MipmapView>::empty())
    } else if width % 4 != 0 || height % 4 != 0 {
        Err(PaaError::DxtMipmapDimensionsNotMultipleOf4(width, height))
    } else if cursor + size > data.len() {
        Err(PaaError::MipmapDataBeyondEof)
    } else {
        match spec_split_levels(
            paatype,
            width / 2,
            height / 2,
            size / 4,
            (count - 1) as nat,
            data,
            cursor + size,
        ) {
            Err(e) => Err(e),
            Ok(rest) => Ok(
                seq![
                    MipmapView {
                        width,
                        height,
                        paatype,
                        compression: spec_suggest_compression(paatype, width, height),
                        data: data.subrange(cursor as int, (cursor + size) as int),
                    },
                ] + rest,
            ),
        }
    }
}

/// The mipmaps of a block-compressed surface of at most `count` levels whose
/// largest level has the given sides: what [`spec_split_levels`] finds from
/// the start of `data`, the largest level having the size predicted for the
/// format.
pub open spec fn spec_surface_levels(
    paatype: PaaType,
    width: u16,
    height: u16,
    count: u32,
    data: Seq<u8>,
) -> Result<Seq<MipmapView>, PaaError> {
    if !paatype.spec_is_dxtn() {
        Err(PaaError::UnsupportedPixelFormat)
    } else if paatype.spec_predict_size(width, height) > usize::MAX {
        Err(PaaError::ArithmeticOverflow)
    } else {
        spec_split_levels(
            paatype,
            width,
            height,
            paatype.spec_predict_size(width, height),
            count as nat,
            data,
            0,
        )
    }
}

/// Splits the data of a block-compressed surface into its mipmaps, each
/// with the scheme suggested for its format and sides.
///
/// Fails with `UnsupportedPixelFormat` for a format that is not
/// block-compressed, with `DxtMipmapDimensionsNotMultipleOf4` for a level of
/// at least 4 by 4 with a side that is no multiple of 4, and with
/// `MipmapDataBeyondEof` where the data ends inside a level.
pub fn surface_levels(paatype: PaaType, width: u16, height: u16, count: u32, data: &[u8]) -> (res:
    PaaResult<Vec<PaaMipmap>>)
    ensures
        match spec_surface_levels(paatype, width, height, count, data@) {
            Ok(levels) => res is Ok && levels_view(res->Ok_0@) == levels,
            Err(e) => res is Err && res->Err_0 == e,
        },
{
    if !paatype.is_dxtn() {
        return Err(PaaError::UnsupportedPixelFormat);
    }
    let first = match paatype.checked_predict_size(width, height) {
        Some(n) => n,
        None => {
            return Err(PaaError::ArithmeticOverflow);
        },
    };
    let ghost whole = spec_surface_levels(paatype, width, height, count, data@);
    let mut levels: Vec<PaaMipmap> = Vec::new();
    let mut w = width;
    let mut h = height;
    let mut size: usize = first;
    let mut cursor: usize = 0;
    let mut left: u32 = count;
    assert(levels_view(levels@) =~= Seq::<MipmapView>::empty());
    loop
        invariant_except_break
            match spec_split_levels(paatype, w, h, size as nat, left as nat, data@, cursor as nat) {
                Ok(rest) => whole == Ok::<Seq<MipmapView>, PaaError>(levels_view(levels@) + rest),
                Err(e) => whole == Err::<Seq<MipmapView>, PaaError>(e),
            },
        invariant
            cursor <= data@.len(),
            whole == spec_surface_levels(paatype, width, height, count, data@),
        ensures
            whole == Ok::<Seq<MipmapView>, PaaError>(levels_view(levels@)),
        decreases left,
    {
        if left == 0 || w < 4 || h < 4 {
            assert(levels_view(levels@) + Seq::<MipmapView>::empty() =~= levels_view(levels@));
            break ;
        }
        if w % 4 != 0 || h % 4 != 0 {
            return Err(PaaError::DxtMipmapDimensionsNotMultipleOf4(w, h));
        }
        if size > data.len() - cursor {
            return Err(PaaError::MipmapDataBeyondEof);
        }
        let compression = PaaMipmap::suggest_compression(paatype, w, h);
        let chunk = vstd::slice::slice_subrange(data, cursor, cursor + size);
        let level = PaaMipmap {
            width: w,
            height: h,
            paatype,
            compression,
            data: vstd::slice::slice_to_vec(chunk),
        };
        let ghost seen = levels_view(levels@);
        let ghost view = level@;
        levels.push(level);
        proof {
            assert(levels_view(levels@) =~= seen.push(view));
            let next = spec_split_levels(
                paatype,
                (w / 2) as u16,
                (h / 2) as u16,
                (size / 4) as nat,
                (left - 1) as nat,
                data@,
                (cursor + size) as nat,
            );
            if next is Ok {
                assert(seen + (seq![view] + next->Ok_0) =~= seen.push(view) + next->Ok_0);
            }
        }
        cursor = cursor + size;
        size = size / 4;
        w = w / 2;
        h = h / 2;
        left = left - 1;
    }
    Ok(levels)
}

} // verus!
