use crate::buffer::{decode_region, shared_memory_to_image, SizeMismatch};
use crate::raster::{Raster, RasterView};
use vstd::prelude::*;
use vstd::slice::{slice_subrange, slice_to_vec};

verus! {

/// Rows `[y0, y1)` of `r` as a raster of their own. Rows are stored one after
/// the other, so the band is a contiguous run of the storage.
pub open spec fn band_view(r: RasterView, y0: int, y1: int) -> RasterView {
    RasterView {
        width: r.width,
        height: (y1 - y0) as nat,
        data: r.data.subrange(y0 * r.width * 3, y1 * r.width * 3),
    }
}

/// `top` above `bottom`, both of the same width.
pub open spec fn stitch_view(top: RasterView, bottom: RasterView) -> RasterView {
    RasterView { width: top.width, height: top.height + bottom.height, data: top.data + bottom.data }
}

/// The raster made of a processed top band of `half_height` rows and a
/// processed bottom band of the remaining rows, read back from their regions.
pub open spec fn combined(
    top: Seq<u8>,
    bottom: Seq<u8>,
    width: u32,
    height: u32,
    half_height: u32,
) -> Result<RasterView, SizeMismatch> {
    match decode_region(top, width, half_height) {
        Err(e) => Err(e),
        Ok(t) => match decode_region(bottom, width, (height - half_height) as u32) {
            Err(e) => Err(e),
            Ok(b) => Ok(stitch_view(t, b)),
        },
    }
}

proof fn lemma_band_bounds(r: RasterView, y0: int, y1: int)
    requires
        r.wf(),
        0 <= y0 <= y1 <= r.height,
    ensures
        0 <= y0 * r.width * 3 <= y1 * r.width * 3 <= r.data.len(),
        band_view(r, y0, y1).wf(),
{
    assert(0 <= y0 * r.width * 3 <= y1 * r.width * 3 <= r.width * r.height * 3) by (nonlinear_arith)
        requires
            0 <= y0 <= y1 <= r.height,
    ;
    assert(y1 * r.width * 3 - y0 * r.width * 3 == r.width * (y1 - y0) * 3) by (nonlinear_arith);
}

/// Splitting a raster into the rows above and from a given row, and stitching
/// the two bands back together, gives the raster unchanged (for any split row,
/// including an empty top or bottom band).
pub proof fn lemma_split_stitch(r: RasterView, half: int)
    requires
        r.wf(),
        0 <= half <= r.height,
    ensures
        band_view(r, 0, half).wf(),
        band_view(r, half, r.height as int).wf(),
        band_view(r, 0, half).height + band_view(r, half, r.height as int).height == r.height,
        stitch_view(band_view(r, 0, half), band_view(r, half, r.height as int)) == r,
{
    lemma_band_bounds(r, 0, half);
    lemma_band_bounds(r, half, r.height as int);
    assert(r.height * r.width * 3 == r.data.len()) by (nonlinear_arith)
        requires
            r.data.len() == r.width * r.height * 3,
    ;
    assert(r.data.subrange(0, half * r.width * 3) + r.data.subrange(
        half * r.width * 3,
        r.height as int * r.width * 3,
    ) =~= r.data);
}

/// Splits `img` into its first `half_height` rows and the rows after them.
pub fn split_image(img: &Raster, half_height: u32) -> (r: (Raster, Raster))
    requires
        half_height <= img@.height,
    ensures
        r.0@ == band_view(img@, 0, half_height as int),
        r.1@ == band_view(img@, half_height as int, img@.height as int),
{
    let width = img.width();
    let height = img.height();
    let raw = img.as_raw();
    let total = raw.len();
    proof {
        lemma_band_bounds(img@, 0, half_height as int);
        lemma_band_bounds(img@, half_height as int, height as int);
        assert(height * width * 3 == raw@.len()) by (nonlinear_arith)
            requires
                raw@.len() == width * height * 3,
        ;
    }
    proof {
        assert(half_height * width * 3 <= total);
        assert(half_height * width <= half_height * width * 3) by (nonlinear_arith)
            requires
                0 <= half_height * width,
        ;
        assert(0 <= half_height * width) by (nonlinear_arith)
            requires
                0 <= half_height,
                0 <= width,
        ;
    }
    let row_bytes: usize = (half_height as usize) * (width as usize);
    let mid: usize = row_bytes * 3;
    let top = slice_to_vec(slice_subrange(raw, 0, mid));
    let bottom = slice_to_vec(slice_subrange(raw, mid, total));
    proof {
        assert(band_view(img@, 0, half_height as int).data.len() == half_height * width * 3) by (
        nonlinear_arith)
            requires
                band_view(img@, 0, half_height as int).data.len() == width * half_height * 3,
        ;
    }
    (
        Raster::from_vec(width, half_height, top),
        Raster::from_vec(width, height - half_height, bottom),
    )
}

/// Places `bottom` under `top`; both have the same width.
pub fn stitch_bands(top: &Raster, bottom: &Raster) -> (r: Raster)
    requires
        top@.width == bottom@.width,
        top@.height + bottom@.height <= u32::MAX,
    ensures
        r@ == stitch_view(top@, bottom@),
{
    let width = top.width();
    let h0 = top.height();
    let h1 = bottom.height();
    let mut data = slice_to_vec(top.as_raw());
    let mut rest = slice_to_vec(bottom.as_raw());
    data.append(&mut rest);
    proof {
        assert(width * h0 * 3 + width * h1 * 3 == width * (h0 + h1) * 3) by (nonlinear_arith);
    }
    Raster::from_vec(width, h0 + h1, data)
}

/// Reads the processed top band (`half_height` rows) and bottom band (the
/// remaining rows) out of their regions and stitches them into one
/// `width x height` raster. A region of the wrong length is refused, the top
/// one first.
pub fn combine_processed_halves(
    top_region: &[u8],
    bottom_region: &[u8],
    width: u32,
    height: u32,
    half_height: u32,
) -> (r: Result<Raster, SizeMismatch>)
    requires
        half_height <= height,
    ensures
        r matches Ok(img) ==> combined(top_region@, bottom_region@, width, height, half_height)
            == Ok::<RasterView, SizeMismatch>(img@),
        r matches Err(e) ==> combined(top_region@, bottom_region@, width, height, half_height)
            == Err::<RasterView, SizeMismatch>(e),
{
    let top = match shared_memory_to_image(top_region, width, half_height) {
        Ok(t) => t,
        Err(e) => {
            return Err(e);
        },
    };
    let bottom = match shared_memory_to_image(bottom_region, width, height - half_height) {
        Ok(b) => b,
        Err(e) => {
            return Err(e);
        },
    };
    Ok(stitch_bands(&top, &bottom))
}

} // verus!
