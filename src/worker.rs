use crate::buffer::{decode_region, image_to_buffer, region_len, shared_memory_to_image, SizeMismatch};
use crate::filters::{apply_blur, apply_edge_detection, edge_view, smooth_view};
use crate::raster::{Raster, RasterView};
use vstd::prelude::*;

verus! {

/// The filter a worker runs.
#[derive(Clone, Copy, Debug, PartialEq, Eq, Structural)]
pub enum Filter {
    Blur,
    EdgeDetection,
}

/// The raster that filter `f` produces from `r`.
pub open spec fn filter_view(f: Filter, r: RasterView) -> RasterView {
    match f {
        Filter::Blur => smooth_view(r),
        Filter::EdgeDetection => edge_view(r),
    }
}

/// Runs filter `f` over the raster.
pub fn apply_filter(img: &mut Raster, f: Filter)
    ensures
        final(img)@ == filter_view(f, old(img)@),
{
    match f {
        Filter::Blur => apply_blur(img),
        Filter::EdgeDetection => apply_edge_detection(img),
    }
}

/// Length of the region for a `width x height` raster, when it fits in memory.
pub fn region_size(width: u32, height: u32) -> (r: Option<usize>)
    ensures
        r matches Some(n) ==> n == region_len(width, height),
        r is None <==> region_len(width, height) > usize::MAX,
{
    let area = (width as u64).checked_mul(height as u64);
    match area {
        None => None,
        Some(a) => match a.checked_mul(3) {
            None => None,
            Some(n) => {
                if n <= usize::MAX as u64 {
                    Some(n as usize)
                } else {
                    None
                }
            },
        },
    }
}

/// One coordinated pass: reads the region as a `width x height` raster, runs
/// the filter, and writes the result over the region. A region whose length
/// disagrees with the dimensions is refused and left untouched.
pub fn process_region(region: &mut [u8], width: u32, height: u32, filter: Filter) -> (r: Result<
    (),
    SizeMismatch,
>)
    ensures
        decode_region(old(region)@, width, height) matches Ok(v) ==> r is Ok && final(region)@
            == filter_view(filter, v).data,
        decode_region(old(region)@, width, height) matches Err(e) ==> r == Err::<(), SizeMismatch>(e)
            && final(region)@ == old(region)@,
{
    let mut img = match shared_memory_to_image(region, width, height) {
        Ok(img) => img,
        Err(e) => {
            return Err(e);
        },
    };
    apply_filter(&mut img, filter);
    image_to_buffer(&img, region);
    Ok(())
}

} // verus!
