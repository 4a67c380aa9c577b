use crate::raster::{Raster, RasterView};
use vstd::prelude::*;
use vstd::slice::slice_to_vec;

verus! {

/// A byte region whose length disagrees with the dimensions it is read or
/// written with.
#[derive(Clone, Copy, Debug, PartialEq, Eq, Structural)]
pub struct SizeMismatch {
    /// The length the dimensions call for.
    pub expected: u128,
    /// The region's actual length.
    pub actual: usize,
}

/// Length of the region that holds a `width x height` raster.
pub open spec fn region_len(width: u32, height: u32) -> int {
    width as int * height as int * 3
}

/// The raster a region holds when read as `width x height`, or the mismatch.
pub open spec fn decode_region(b: Seq<u8>, width: u32, height: u32) -> Result<
    RasterView,
    SizeMismatch,
> {
    if b.len() == region_len(width, height) {
        Ok(RasterView { width: width as nat, height: height as nat, data: b })
    } else {
        Err(SizeMismatch { expected: region_len(width, height) as u128, actual: b.len() as usize })
    }
}

/// The region's contents after `r` is written into a region that held
/// `region`, or the mismatch (the region is then left as it was).
pub open spec fn encode_region(r: RasterView, region: Seq<u8>) -> Result<Seq<u8>, SizeMismatch> {
    if region.len() == r.data.len() {
        Ok(r.data)
    } else {
        Err(SizeMismatch { expected: r.data.len() as u128, actual: region.len() as usize })
    }
}

/// Reading a region as a raster and writing that raster back gives the
/// region's bytes unchanged; a region whose length disagrees with the
/// dimensions is refused with both lengths, never cut or padded.
pub proof fn lemma_region_round_trip(b: Seq<u8>, width: u32, height: u32)
    requires
        b.len() <= usize::MAX,
    ensures
        b.len() == region_len(width, height) ==> decode_region(b, width, height) is Ok
            && encode_region(decode_region(b, width, height)->Ok_0, b) == Ok::<
            Seq<u8>,
            SizeMismatch,
        >(b),
        b.len() != region_len(width, height) ==> decode_region(b, width, height) == Err::<
            RasterView,
            SizeMismatch,
        >(SizeMismatch { expected: region_len(width, height) as u128, actual: b.len() as usize }),
{
}

fn copy_into(src: &[u8], dst: &mut [u8])
    requires
        src@.len() == old(dst)@.len(),
    ensures
        final(dst)@ == src@,
{
    let n = src.len();
    let mut i: usize = 0;
    while i < n
        invariant
            n == src@.len(),
            dst@.len() == n,
            i <= n,
            forall|k: int| 0 <= k < i ==> dst@[k] == src@[k],
        decreases n - i,
    {
        dst[i] = src[i];
        i = i + 1;
    }
    assert(dst@ =~= src@);
}

/// Allocates a zero-filled byte buffer of the given length.
pub fn create_buffer(size: usize) -> (r: Vec<u8>)
    ensures
        r@ == Seq::new(size as nat, |i: int| 0u8),
{
    vec![0u8; size]
}

/// Reads `buffer` as a `width x height` raster; its length must fit.
pub fn buffer_to_image(buffer: &[u8], width: u32, height: u32) -> (r: Raster)
    requires
        buffer@.len() == region_len(width, height),
    ensures
        r@ == (RasterView { width: width as nat, height: height as nat, data: buffer@ }),
{
    Raster::from_vec(width, height, slice_to_vec(buffer))
}

/// Copies the raster's storage into `buffer`, which has exactly its length.
pub fn image_to_buffer(img: &Raster, buffer: &mut [u8])
    requires
        old(buffer)@.len() == img@.data.len(),
    ensures
        final(buffer)@ == img@.data,
{
    copy_into(img.as_raw(), buffer);
}

/// Reads a shared region as a `width x height` raster, refusing a region
/// whose length is not `width * height * 3`.
pub fn shared_memory_to_image(mmap: &[u8], width: u32, height: u32) -> (r: Result<
    Raster,
    SizeMismatch,
>)
    ensures
        r matches Ok(img) ==> decode_region(mmap@, width, height) == Ok::<RasterView, SizeMismatch>(
            img@,
        ),
        r matches Err(e) ==> decode_region(mmap@, width, height) == Err::<RasterView, SizeMismatch>(
            e,
        ),
{
    assert(width as int * height as int <= u32::MAX as int * u32::MAX as int) by (nonlinear_arith)
        requires
            width <= u32::MAX,
            height <= u32::MAX,
    ;
    let expected: u128 = (width as u128) * (height as u128) * 3;
    if expected != mmap.len() as u128 {
        return Err(SizeMismatch { expected, actual: mmap.len() });
    }
    Ok(buffer_to_image(mmap, width, height))
}

/// Writes the raster's storage over a shared region of the same length; a
/// region of another length is refused and left untouched.
pub fn image_to_shared_memory(img: &Raster, mmap: &mut [u8]) -> (r: Result<(), SizeMismatch>)
    ensures
        r is Ok <==> encode_region(img@, old(mmap)@) is Ok,
        r is Ok ==> final(mmap)@ == img@.data,
        r matches Err(e) ==> encode_region(img@, old(mmap)@) == Err::<Seq<u8>, SizeMismatch>(e)
            && final(mmap)@ == old(mmap)@,
{
    let raw = img.as_raw();
    if mmap.len() != raw.len() {
        return Err(SizeMismatch { expected: raw.len() as u128, actual: mmap.len() });
    }
    copy_into(raw, mmap);
    Ok(())
}

} // verus!
