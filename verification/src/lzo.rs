//! The block codec used for large block-compressed mipmaps.

use vstd::prelude::*;

verus! {

/// What `LZO::decompress_safe` of minilzo-rs gives for a compressed block and
/// the expected length of its expansion: the expansion, or `None` where the
/// call, or the set-up of the codec before it, reports an error.
pub uninterp spec fn lzo_decompressed(src: Seq<u8>, dst_len: nat) -> Option<Seq<u8>>;

/// `LZO::compress` of minilzo-rs on a fresh instance. The block it returns
/// depends on how the compressor was built, so nothing is claimed of it; an
/// error comes back as the text of its name.
#[verifier::external_body]
pub(crate) fn lzo_compress(src: &[u8]) -> (res: Result<Vec<u8>, String>)
    requires
        src@.len() + src@.len() / 16 + 67 <= usize::MAX,
{
    match minilzo_rs::LZO::init() {
        Ok(mut lzo) => match lzo.compress(src) {
            Ok(block) => Ok(block),
            Err(e) => Err(format!("{:?}", e)),
        },
        Err(e) => Err(format!("{:?}", e)),
    }
}

/// `LZO::decompress_safe` of minilzo-rs on a fresh instance. On success the
/// buffer it returns is the one it allocated with `dst_len` bytes; an error
/// comes back as the text of its name.
#[verifier::external_body]
pub(crate) fn lzo_decompress(src: &[u8], dst_len: usize) -> (res: Result<Vec<u8>, String>)
    ensures
        match res {
            Ok(d) => lzo_decompressed(src@, dst_len as nat) == Some(d@) && d@.len() == dst_len,
            Err(_) => lzo_decompressed(src@, dst_len as nat) is None,
        },
{
    match minilzo_rs::LZO::init() {
        Ok(lzo) => match lzo.decompress_safe(src, dst_len) {
            Ok(data) => Ok(data),
            Err(e) => Err(format!("{:?}", e)),
        },
        Err(e) => Err(format!("{:?}", e)),
    }
}

} // verus!
