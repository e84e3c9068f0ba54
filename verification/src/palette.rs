//! The colour table of indexed containers.

use vstd::prelude::*;
use crate::bytes::{le16_at, push_u16_le, u16_le, PaaReader};
use crate::error::{PaaError, PaaResult};
use crate::pixel::Bgr888Pixel;

verus! {

/// The colours an indexed mipmap refers to, at most 65535 of them on the
/// wire.
#[derive(Debug)]
pub struct PaaPalette {
    pub pixels: Vec<Bgr888Pixel>,
}

impl View for PaaPalette {
    type V = Seq<Bgr888Pixel>;

    open spec fn view(&self) -> Seq<Bgr888Pixel> {
        self.pixels@
    }
}

/// The bytes of the colours `pixels` in turn.
pub open spec fn spec_triplets(pixels: Seq<Bgr888Pixel>) -> Seq<u8>
    decreases pixels.len(),
{
    if pixels.len() == 0 {
        Seq::<u8>::empty()
    } else {
        spec_triplets(pixels.drop_last()) + pixels.last().spec_bytes()
    }
}

/// The palette block: the number of colours in two bytes, then the colours.
pub open spec fn spec_palette_bytes(pixels: Seq<Bgr888Pixel>) -> Seq<u8> {
    u16_le(pixels.len() as u16) + spec_triplets(pixels)
}

/// The colour stored at `at` in `data`.
pub open spec fn spec_pixel_at(data: Seq<u8>, at: int) -> Bgr888Pixel {
    Bgr888Pixel { b: data[at], g: data[at + 1], r: data[at + 2] }
}

/// The palette block at `pos` in `data` and the position after it: no
/// palette for a count of zero, else as many colours as the count says.
pub open spec fn spec_read_palette(data: Seq<u8>, pos: int) -> Result<
    (Option<Seq<Bgr888Pixel>>, int),
    PaaError,
> {
    if pos + 2 > data.len() {
        Err(PaaError::UnexpectedEof)
    } else {
        let count = le16_at(data, pos) as int;
        if count == 0 {
            Ok((None, pos + 2))
        } else if pos + 2 + 3 * count > data.len() {
            Err(PaaError::UnexpectedEof)
        } else {
            Ok(
                (
                    Some(Seq::new(count as nat, |i: int| spec_pixel_at(data, pos + 2 + 3 * i))),
                    pos + 2 + 3 * count,
                ),
            )
        }
    }
}

impl Clone for PaaPalette {
    fn clone(&self) -> (p: Self)
        ensures
            p@ == self@,
    {
        PaaPalette { pixels: vstd::slice::slice_to_vec(self.pixels.as_slice()) }
    }
}

impl Default for PaaPalette {
    fn default() -> (p: Self)
        ensures
            p@ == Seq::<Bgr888Pixel>::empty(),
    {
        PaaPalette { pixels: Vec::new() }
    }
}

impl PaaPalette {
    /// A palette of the given colours. Fails with `PaletteTooLarge` for more
    /// than 65535 of them.
    pub fn with_pixels(pixels: &[Bgr888Pixel]) -> (res: PaaResult<Self>)
        ensures
            pixels@.len() <= 65535 ==> res is Ok && res->Ok_0@ == pixels@,
            pixels@.len() > 65535 ==> res is Err && res->Err_0 == PaaError::PaletteTooLarge,
    {
        if pixels.len() > 65535 {
            return Err(PaaError::PaletteTooLarge);
        }
        Ok(PaaPalette { pixels: vstd::slice::slice_to_vec(pixels) })
    }

    /// The colour at `index`. Fails with `PaletteTooLarge` for an index past
    /// the last colour.
    pub fn get(&self, index: u16) -> (res: PaaResult<&Bgr888Pixel>)
        ensures
            index < self@.len() ==> res is Ok && *res->Ok_0 == self@[index as int],
            index >= self@.len() ==> res is Err && res->Err_0 == PaaError::PaletteTooLarge,
    {
        if (index as usize) < self.pixels.len() {
            Ok(&self.pixels[index as usize])
        } else {
            Err(PaaError::PaletteTooLarge)
        }
    }

    /// The palette block. Fails with `PaletteTooLarge` for more than 65535
    /// colours.
    pub fn to_bytes(&self) -> (res: PaaResult<Vec<u8>>)
        ensures
            self@.len() <= 65535 ==> res is Ok && res->Ok_0@ == spec_palette_bytes(self@),
            self@.len() > 65535 ==> res == Err::<Vec<u8>, PaaError>(PaaError::PaletteTooLarge),
    {
        let n = self.pixels.len();
        if n > 65535 {
            return Err(PaaError::PaletteTooLarge);
        }
        let mut buf: Vec<u8> = Vec::new();
        push_u16_le(&mut buf, n as u16);
        let mut i: usize = 0;
        assert(self@.take(0) =~= Seq::<Bgr888Pixel>::empty());
        assert(buf@ =~= u16_le(n as u16) + spec_triplets(self@.take(0)));
        while i < n
            invariant
                i <= n,
                n == self@.len(),
                buf@ == u16_le(n as u16) + spec_triplets(self@.take(i as int)),
            decreases n - i,
        {
            let bytes = self.pixels[i].to_bytes();
            buf.extend_from_slice(bytes.as_slice());
            proof {
                let next = self@.take(i + 1);
                assert(next.drop_last() =~= self@.take(i as int));
                assert(next.last() == self@[i as int]);
                assert(buf@ =~= u16_le(n as u16) + spec_triplets(next));
            }
            i = i + 1;
        }
        assert(self@.take(n as int) =~= self@);
        Ok(buf)
    }

    /// The palette block, as [`PaaPalette::to_bytes`] gives it.
    pub fn as_bytes(&self) -> (res: PaaResult<Vec<u8>>)
        ensures
            self@.len() <= 65535 ==> res is Ok && res->Ok_0@ == spec_palette_bytes(self@),
            self@.len() > 65535 ==> res == Err::<Vec<u8>, PaaError>(PaaError::PaletteTooLarge),
    {
        self.to_bytes()
    }

    /// Reads the palette block at the position of `input`: `None` for a
    /// count of zero. Fails with `UnexpectedEof`, leaving the position where
    /// it was, if the input ends inside the block.
    pub fn read_from(input: &mut PaaReader) -> (res: PaaResult<Option<Self>>)
        ensures
            final(input).data == old(input).data,
            match spec_read_palette(old(input).data@, old(input).pos as int) {
                Ok((palette, end)) => res is Ok && final(input).pos == end && match palette {
                    Some(pixels) => res->Ok_0 is Some && res->Ok_0->Some_0@ == pixels,
                    None => res->Ok_0 is None,
                },
                Err(e) => res is Err && res->Err_0 == e && final(input).pos == old(input).pos,
            },
    {
        let start = input.position();
        let ghost data = input.data@;
        let count = match input.read_u16() {
            Ok(c) => c,
            Err(e) => {
                return Err(e);
            },
        };
        if count == 0 {
            return Ok(None);
        }
        let need: usize = 3 * (count as usize);
        let raw = match input.read_exact_buffered(need) {
            Ok(v) => v,
            Err(e) => {
                input.seek(start);
                return Err(e);
            },
        };
        let mut pixels: Vec<Bgr888Pixel> = Vec::new();
        let mut i: usize = 0;
        while i < count as usize
            invariant
                i <= count,
                raw@.len() == 3 * count,
                raw@ == data.subrange(start + 2, start + 2 + 3 * count),
                start + 2 + 3 * count <= data.len(),
                pixels@.len() == i,
                forall|j: int| 0 <= j < i ==> #[trigger] pixels@[j] == spec_pixel_at(data, start + 2 + 3 * j),
            decreases count - i,
        {
            let px = Bgr888Pixel::from_bytes([raw[3 * i], raw[3 * i + 1], raw[3 * i + 2]]);
            pixels.push(px);
            i = i + 1;
        }
        assert(pixels@ =~= Seq::new(
            count as nat,
            |i: int| spec_pixel_at(data, start + 2 + 3 * i),
        ));
        Ok(Some(PaaPalette { pixels }))
    }
}

} // verus!
