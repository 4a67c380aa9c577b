use crate::raster::{lemma_byte_coords, lemma_offset_coords, lemma_offset_in_range, Raster, RasterView};
use vstd::prelude::*;

verus! {

/// Channel `c` of pixel `(x, y)` when that pixel lies inside the raster; an
/// outside position contributes nothing.
pub open spec fn sample(r: RasterView, x: int, y: int, c: int) -> int {
    if r.in_bounds(x, y) {
        r.chan(x, y, c) as int
    } else {
        0
    }
}

/// 1 when `(x, y)` lies inside the raster, else 0.
pub open spec fn present(r: RasterView, x: int, y: int) -> int {
    if r.in_bounds(x, y) {
        1
    } else {
        0
    }
}

/// Sum of channel `c` over the valid pixels of the 3x3 window centred at `(x, y)`.
pub open spec fn window_sum(r: RasterView, x: int, y: int, c: int) -> int {
    sample(r, x - 1, y - 1, c) + sample(r, x, y - 1, c) + sample(r, x + 1, y - 1, c)
        + sample(r, x - 1, y, c) + sample(r, x, y, c) + sample(r, x + 1, y, c)
        + sample(r, x - 1, y + 1, c) + sample(r, x, y + 1, c) + sample(r, x + 1, y + 1, c)
}

/// Number of valid pixels in the 3x3 window centred at `(x, y)`.
pub open spec fn window_count(r: RasterView, x: int, y: int) -> int {
    present(r, x - 1, y - 1) + present(r, x, y - 1) + present(r, x + 1, y - 1)
        + present(r, x - 1, y) + present(r, x, y) + present(r, x + 1, y)
        + present(r, x - 1, y + 1) + present(r, x, y + 1) + present(r, x + 1, y + 1)
}

/// Smoothed value of channel `c` at `(x, y)`: the window mean, truncated.
pub open spec fn smoothed(r: RasterView, x: int, y: int, c: int) -> int {
    window_sum(r, x, y, c) / window_count(r, x, y)
}

/// Horizontal gradient: right column minus left column of the window.
pub open spec fn gradient_x(r: RasterView, x: int, y: int, c: int) -> int {
    (sample(r, x + 1, y - 1, c) + sample(r, x + 1, y, c) + sample(r, x + 1, y + 1, c)) - (
    sample(r, x - 1, y - 1, c) + sample(r, x - 1, y, c) + sample(r, x - 1, y + 1, c))
}

/// Vertical gradient: bottom row minus top row of the window.
pub open spec fn gradient_y(r: RasterView, x: int, y: int, c: int) -> int {
    (sample(r, x - 1, y + 1, c) + sample(r, x, y + 1, c) + sample(r, x + 1, y + 1, c)) - (
    sample(r, x - 1, y - 1, c) + sample(r, x, y - 1, c) + sample(r, x + 1, y - 1, c))
}

/// `v` is `min(255, round(sqrt(n)))`. Writing `v - 1/2 <= sqrt(n) < v + 1/2`
/// over the integers gives `v * v - v < n <= v * v + v` (the lower bound is
/// void at `v = 0`).
pub open spec fn is_clamped_root(n: int, v: int) -> bool {
    ||| (v == 255 && 255 * 254 < n)
    ||| (0 <= v < 255 && (v == 0 || v * v - v < n) && n <= v * v + v)
}

/// `min(255, round(sqrt(n)))` for `n >= 0`.
pub open spec fn clamped_root(n: int) -> int {
    choose|v: int| is_clamped_root(n, v)
}

/// Edge magnitude of channel `c` at `(x, y)`.
pub open spec fn edge_level(r: RasterView, x: int, y: int, c: int) -> int {
    let gx = gradient_x(r, x, y, c);
    let gy = gradient_y(r, x, y, c);
    clamped_root(gx * gx + gy * gy)
}

/// The raster that smoothing produces from `r`.
pub open spec fn smooth_view(r: RasterView) -> RasterView {
    RasterView {
        width: r.width,
        height: r.height,
        data: Seq::new(
            r.data.len(),
            |i: int| smoothed(r, r.col_of(i), r.row_of(i), i % 3) as u8,
        ),
    }
}

/// The raster that edge detection produces from `r`.
pub open spec fn edge_view(r: RasterView) -> RasterView {
    RasterView {
        width: r.width,
        height: r.height,
        data: Seq::new(
            r.data.len(),
            |i: int| edge_level(r, r.col_of(i), r.row_of(i), i % 3) as u8,
        ),
    }
}

/// At most one value is `min(255, round(sqrt(n)))`.
pub proof fn lemma_clamped_root_unique(n: int, a: int, b: int)
    requires
        is_clamped_root(n, a),
        is_clamped_root(n, b),
    ensures
        a == b,
{
    if a < b {
        assert(b * b - b >= a * a + a) by (nonlinear_arith)
            requires
                0 <= a,
                a + 1 <= b,
        ;
    } else if b < a {
        assert(a * a - a >= b * b + b) by (nonlinear_arith)
            requires
                0 <= b,
                b + 1 <= a,
        ;
    }
}

/// A value that meets the definition is the one `clamped_root` names.
pub proof fn lemma_clamped_root_is(n: int, v: int)
    requires
        is_clamped_root(n, v),
    ensures
        clamped_root(n) == v,
{
    assert(is_clamped_root(n, clamped_root(n)));
    lemma_clamped_root_unique(n, v, clamped_root(n));
}

fn sample_at(img: &Raster, x: i64, y: i64, c: usize) -> (r: (u32, u32))
    requires
        c < 3,
    ensures
        r.0 == sample(img@, x as int, y as int, c as int),
        r.1 == present(img@, x as int, y as int),
        r.0 <= 255,
{
    let w = img.width();
    let h = img.height();
    if 0 <= x && x < w as i64 && 0 <= y && y < h as i64 {
        (img.get_channel(x as u32, y as u32, c) as u32, 1)
    } else {
        (0, 0)
    }
}

/// Sum and number of the valid samples of channel `c` in the window at `(x, y)`.
fn window(img: &Raster, x: u32, y: u32, c: usize) -> (r: (u32, u32))
    requires
        c < 3,
    ensures
        r.0 == window_sum(img@, x as int, y as int, c as int),
        r.1 == window_count(img@, x as int, y as int),
        r.0 <= 255 * r.1,
{
    let (x, y) = (x as i64, y as i64);
    let (s0, p0) = sample_at(img, x - 1, y - 1, c);
    let (s1, p1) = sample_at(img, x, y - 1, c);
    let (s2, p2) = sample_at(img, x + 1, y - 1, c);
    let (s3, p3) = sample_at(img, x - 1, y, c);
    let (s4, p4) = sample_at(img, x, y, c);
    let (s5, p5) = sample_at(img, x + 1, y, c);
    let (s6, p6) = sample_at(img, x - 1, y + 1, c);
    let (s7, p7) = sample_at(img, x, y + 1, c);
    let (s8, p8) = sample_at(img, x + 1, y + 1, c);
    (s0 + s1 + s2 + s3 + s4 + s5 + s6 + s7 + s8, p0 + p1 + p2 + p3 + p4 + p5 + p6 + p7 + p8)
}

/// Smoothed value of channel `c` of pixel `(x, y)`.
pub fn smoothed_channel(img: &Raster, x: u32, y: u32, c: usize) -> (v: u8)
    requires
        img@.in_bounds(x as int, y as int),
        c < 3,
    ensures
        v == smoothed(img@, x as int, y as int, c as int),
{
    let (sum, count) = window(img, x, y, c);
    assert(count >= 1);
    assert(sum / count <= 255) by (nonlinear_arith)
        requires
            sum <= 255 * count,
            count >= 1,
    ;
    (sum / count) as u8
}

/// Horizontal and vertical gradient of channel `c` at `(x, y)`.
fn gradient(img: &Raster, x: u32, y: u32, c: usize) -> (r: (i32, i32))
    requires
        c < 3,
    ensures
        r.0 == gradient_x(img@, x as int, y as int, c as int),
        r.1 == gradient_y(img@, x as int, y as int, c as int),
        -765 <= r.0 <= 765,
        -765 <= r.1 <= 765,
{
    let (x, y) = (x as i64, y as i64);
    let (nw, _) = sample_at(img, x - 1, y - 1, c);
    let (n, _) = sample_at(img, x, y - 1, c);
    let (ne, _) = sample_at(img, x + 1, y - 1, c);
    let (w, _) = sample_at(img, x - 1, y, c);
    let (e, _) = sample_at(img, x + 1, y, c);
    let (sw, _) = sample_at(img, x - 1, y + 1, c);
    let (s, _) = sample_at(img, x, y + 1, c);
    let (se, _) = sample_at(img, x + 1, y + 1, c);
    let gx = (ne as i32 + e as i32 + se as i32) - (nw as i32 + w as i32 + sw as i32);
    let gy = (sw as i32 + s as i32 + se as i32) - (nw as i32 + n as i32 + ne as i32);
    (gx, gy)
}

/// `min(255, round(sqrt(n)))`, without floating point.
pub fn clamped_rounded_root(n: u32) -> (v: u8)
    ensures
        is_clamped_root(n as int, v as int),
        v == clamped_root(n as int),
{
    let mut v: u32 = 0;
    while v < 255 && v * v + v < n
        invariant
            v <= 255,
            v * v + v <= 255 * 256,
            v == 0 || v * v - v < n,
        decreases 255 - v,
    {
        assert((v + 1) * (v + 1) - (v + 1) == v * v + v) by (nonlinear_arith);
        assert((v + 1) * (v + 1) + (v + 1) <= 255 * 256) by (nonlinear_arith)
            requires
                v < 255,
        ;
        v = v + 1;
    }
    proof {
        lemma_clamped_root_is(n as int, v as int);
    }
    v as u8
}

/// Edge magnitude of channel `c` of pixel `(x, y)`.
pub fn edge_channel(img: &Raster, x: u32, y: u32, c: usize) -> (v: u8)
    requires
        c < 3,
    ensures
        v == edge_level(img@, x as int, y as int, c as int),
{
    let (gx, gy) = gradient(img, x, y, c);
    assert(gx * gx <= 765 * 765 && gy * gy <= 765 * 765 && gx * gx >= 0 && gy * gy >= 0)
        by (nonlinear_arith)
        requires
            -765 <= gx <= 765,
            -765 <= gy <= 765,
    ;
    let n = (gx * gx + gy * gy) as u32;
    clamped_rounded_root(n)
}

/// Replaces every pixel by the truncated mean of the valid pixels of its 3x3
/// window. All reads come from the unchanged input; the result is swapped in
/// at the end.
pub fn apply_blur(img: &mut Raster)
    ensures
        final(img)@ == smooth_view(old(img)@),
{
    let w = img.width();
    let h = img.height();
    let len = img.as_raw().len();
    let mut out: Vec<u8> = Vec::new();
    let mut i: usize = 0;
    while i < len
        invariant
            len == img@.data.len(),
            img@.wf(),
            w == img@.width,
            h == img@.height,
            i <= len,
            out@.len() == i,
            forall|k: int| 0 <= k < i ==> out@[k] == #[trigger] smooth_view(img@).data[k],
        decreases len - i,
    {
        proof {
            lemma_byte_coords(w as nat, h as nat, i as int);
        }
        let p = i / 3;
        let x = (p % (w as usize)) as u32;
        let y = (p / (w as usize)) as u32;
        let v = smoothed_channel(img, x, y, i % 3);
        out.push(v);
        i = i + 1;
    }
    assert(out@ =~= smooth_view(img@).data);
    *img = Raster::from_vec(w, h, out);
}

/// Replaces every channel by the clamped, rounded magnitude of its window's
/// horizontal and vertical gradient. All reads come from the unchanged input.
pub fn apply_edge_detection(img: &mut Raster)
    ensures
        final(img)@ == edge_view(old(img)@),
{
    let w = img.width();
    let h = img.height();
    let len = img.as_raw().len();
    let mut out: Vec<u8> = Vec::new();
    let mut i: usize = 0;
    while i < len
        invariant
            len == img@.data.len(),
            img@.wf(),
            w == img@.width,
            h == img@.height,
            i <= len,
            out@.len() == i,
            forall|k: int| 0 <= k < i ==> out@[k] == #[trigger] edge_view(img@).data[k],
        decreases len - i,
    {
        proof {
            lemma_byte_coords(w as nat, h as nat, i as int);
        }
        let p = i / 3;
        let x = (p % (w as usize)) as u32;
        let y = (p / (w as usize)) as u32;
        let v = edge_channel(img, x, y, i % 3);
        out.push(v);
        i = i + 1;
    }
    assert(out@ =~= edge_view(img@).data);
    *img = Raster::from_vec(w, h, out);
}

/// In a uniform raster a sample is the common value wherever a pixel exists.
proof fn lemma_uniform_sample(r: RasterView, a: int, b: int, c: int)
    requires
        r.is_uniform(),
        0 <= c < 3,
    ensures
        sample(r, a, b, c) == present(r, a, b) * (r.chan(0, 0, c) as int),
{
    if r.in_bounds(a, b) {
        assert(r.chan(a, b, c) == r.chan(0, 0, c));
    }
}

/// Channel `c` of pixel `(x, y)` of a raster computed byte by byte from `r`
/// is the value computed for that pixel and channel.
proof fn lemma_view_chan(r: RasterView, x: int, y: int, c: int)
    requires
        r.wf(),
        r.in_bounds(x, y),
        0 <= c < 3,
    ensures
        smooth_view(r).chan(x, y, c) == smoothed(r, x, y, c) as u8,
        edge_view(r).chan(x, y, c) == edge_level(r, x, y, c) as u8,
        0 <= r.offset(x, y, c) < r.data.len(),
        r.col_of(r.offset(x, y, c)) == x,
        r.row_of(r.offset(x, y, c)) == y,
        r.offset(x, y, c) % 3 == c,
{
    lemma_offset_in_range(r.width, r.height, x, y, c);
    lemma_offset_coords(r.width, r.height, x, y, c);
}

/// Smoothing keeps the dimensions, and each output channel is the truncated
/// mean of the valid pixels of its 3x3 window: all nine for an interior pixel,
/// four at a corner and six elsewhere on the border (for rasters at least two
/// pixels wide and high).
pub proof fn lemma_smoothing_window(r: RasterView, x: int, y: int, c: int)
    requires
        r.wf(),
        r.in_bounds(x, y),
        0 <= c < 3,
    ensures
        smooth_view(r).wf(),
        smooth_view(r).width == r.width,
        smooth_view(r).height == r.height,
        smooth_view(r).chan(x, y, c) as int == window_sum(r, x, y, c) / window_count(r, x, y),
        0 < x < r.width - 1 && 0 < y < r.height - 1 ==> window_count(r, x, y) == 9
            && window_sum(r, x, y, c) == r.chan(x - 1, y - 1, c) + r.chan(x, y - 1, c) + r.chan(
            x + 1,
            y - 1,
            c,
        ) + r.chan(x - 1, y, c) + r.chan(x, y, c) + r.chan(x + 1, y, c) + r.chan(x - 1, y + 1, c)
            + r.chan(x, y + 1, c) + r.chan(x + 1, y + 1, c),
        r.width >= 2 && r.height >= 2 && (x == 0 || x == r.width - 1) && (y == 0 || y == r.height
            - 1) ==> window_count(r, x, y) == 4,
        r.width >= 2 && r.height >= 2 && (((x == 0 || x == r.width - 1) && 0 < y < r.height - 1)
            || ((y == 0 || y == r.height - 1) && 0 < x < r.width - 1)) ==> window_count(r, x, y)
            == 6,
{
    lemma_view_chan(r, x, y, c);
    let n = window_count(r, x, y);
    let s = window_sum(r, x, y, c);
    assert(s <= 255 * n);
    assert(s / n <= 255) by (nonlinear_arith)
        requires
            s <= 255 * n,
            n >= 1,
    ;
    assert(0 <= s / n) by (nonlinear_arith)
        requires
            0 <= s,
            n >= 1,
    ;
}

/// Smoothing a uniform raster gives it back unchanged.
pub proof fn lemma_uniform_smoothing_identity(r: RasterView)
    requires
        r.wf(),
        r.is_uniform(),
    ensures
        smooth_view(r) == r,
{
    assert forall|i: int| 0 <= i < r.data.len() implies smooth_view(r).data[i] == r.data[i] by {
        lemma_byte_coords(r.width, r.height, i);
        let x = r.col_of(i);
        let y = r.row_of(i);
        let c = i % 3;
        assert(r.offset(x, y, c) == i);
        let v = r.chan(0, 0, c) as int;
        lemma_uniform_sample(r, x - 1, y - 1, c);
        lemma_uniform_sample(r, x, y - 1, c);
        lemma_uniform_sample(r, x + 1, y - 1, c);
        lemma_uniform_sample(r, x - 1, y, c);
        lemma_uniform_sample(r, x, y, c);
        lemma_uniform_sample(r, x + 1, y, c);
        lemma_uniform_sample(r, x - 1, y + 1, c);
        lemma_uniform_sample(r, x, y + 1, c);
        lemma_uniform_sample(r, x + 1, y + 1, c);
        let n = window_count(r, x, y);
        assert(window_sum(r, x, y, c) == n * v) by (nonlinear_arith)
            requires
                window_sum(r, x, y, c) == present(r, x - 1, y - 1) * v + present(r, x, y - 1) * v
                    + present(r, x + 1, y - 1) * v + present(r, x - 1, y) * v + present(r, x, y)
                    * v + present(r, x + 1, y) * v + present(r, x - 1, y + 1) * v + present(
                    r,
                    x,
                    y + 1,
                ) * v + present(r, x + 1, y + 1) * v,
                n == window_count(r, x, y),
                window_count(r, x, y) == present(r, x - 1, y - 1) + present(r, x, y - 1) + present(
                    r,
                    x + 1,
                    y - 1,
                ) + present(r, x - 1, y) + present(r, x, y) + present(r, x + 1, y) + present(
                    r,
                    x - 1,
                    y + 1,
                ) + present(r, x, y + 1) + present(r, x + 1, y + 1),
        ;
        assert(n >= 1);
        assert((n * v) / n == v) by (nonlinear_arith)
            requires
                n >= 1,
        ;
        assert(r.chan(x, y, c) == r.chan(0, 0, c));
    }
    assert(smooth_view(r).data =~= r.data);
}

/// In a uniform raster every channel of a pixel with a full 3x3 window has
/// edge magnitude zero.
pub proof fn lemma_uniform_edges_interior(r: RasterView, x: int, y: int, c: int)
    requires
        r.wf(),
        r.is_uniform(),
        0 < x < r.width - 1,
        0 < y < r.height - 1,
        0 <= c < 3,
    ensures
        edge_view(r).chan(x, y, c) == 0,
{
    lemma_view_chan(r, x, y, c);
    lemma_uniform_sample(r, x - 1, y - 1, c);
    lemma_uniform_sample(r, x, y - 1, c);
    lemma_uniform_sample(r, x + 1, y - 1, c);
    lemma_uniform_sample(r, x - 1, y, c);
    lemma_uniform_sample(r, x + 1, y, c);
    lemma_uniform_sample(r, x - 1, y + 1, c);
    lemma_uniform_sample(r, x, y + 1, c);
    lemma_uniform_sample(r, x + 1, y + 1, c);
    lemma_clamped_root_is(0, 0);
}

/// Edge detection keeps the dimensions, and turns a uniform raster into an
/// all-black one when its colour is black or it has at most one pixel. (Any
/// other uniform raster has a non-zero gradient on its border, where the
/// window is cut off.)
pub proof fn lemma_uniform_edges_black(r: RasterView)
    requires
        r.wf(),
        r.is_uniform(),
        r.width * r.height <= 1 || (r.chan(0, 0, 0) == 0 && r.chan(0, 0, 1) == 0 && r.chan(0, 0, 2)
            == 0),
    ensures
        edge_view(r).width == r.width,
        edge_view(r).height == r.height,
        edge_view(r).data == Seq::new(r.data.len(), |i: int| 0u8),
{
    assert forall|i: int| 0 <= i < r.data.len() implies edge_view(r).data[i] == 0u8 by {
        lemma_byte_coords(r.width, r.height, i);
        let x = r.col_of(i);
        let y = r.row_of(i);
        let c = i % 3;
        lemma_uniform_sample(r, x - 1, y - 1, c);
        lemma_uniform_sample(r, x, y - 1, c);
        lemma_uniform_sample(r, x + 1, y - 1, c);
        lemma_uniform_sample(r, x - 1, y, c);
        lemma_uniform_sample(r, x + 1, y, c);
        lemma_uniform_sample(r, x - 1, y + 1, c);
        lemma_uniform_sample(r, x, y + 1, c);
        lemma_uniform_sample(r, x + 1, y + 1, c);
        if r.width * r.height <= 1 {
            assert(r.width == 1 && r.height == 1) by (nonlinear_arith)
                requires
                    r.width * r.height <= 1,
                    0 <= x < r.width,
                    0 <= y < r.height,
            ;
        }
        lemma_clamped_root_is(0, 0);
    }
    assert(edge_view(r).data =~= Seq::new(r.data.len(), |i: int| 0u8));
}

} // verus!
