use vstd::arithmetic::div_mod::lemma_fundamental_div_mod_converse;
use vstd::prelude::*;

verus! {

/// The mathematical picture of a raster: its dimensions and its pixel bytes,
/// row-major, three bytes (red, green, blue) per pixel, no padding.
pub struct RasterView {
    pub width: nat,
    pub height: nat,
    pub data: Seq<u8>,
}

impl RasterView {
    /// Dimensions fit the executable type and the storage holds exactly
    /// `width * height * 3` bytes.
    pub open spec fn wf(self) -> bool {
        &&& self.width <= u32::MAX
        &&& self.height <= u32::MAX
        &&& self.data.len() == self.width * self.height * 3
    }

    pub open spec fn in_bounds(self, x: int, y: int) -> bool {
        0 <= x < self.width && 0 <= y < self.height
    }

    /// Position of channel `c` of pixel `(x, y)` in the storage.
    pub open spec fn offset(self, x: int, y: int, c: int) -> int {
        (y * self.width + x) * 3 + c
    }

    pub open spec fn chan(self, x: int, y: int, c: int) -> u8 {
        self.data[self.offset(x, y, c)]
    }

    /// Column of the pixel that byte `i` belongs to.
    pub open spec fn col_of(self, i: int) -> int {
        (i / 3) % (self.width as int)
    }

    /// Row of the pixel that byte `i` belongs to.
    pub open spec fn row_of(self, i: int) -> int {
        (i / 3) / (self.width as int)
    }

    /// Every pixel has the same three channel values as pixel `(0, 0)`.
    pub open spec fn is_uniform(self) -> bool {
        forall|x: int, y: int, c: int|
            self.in_bounds(x, y) && 0 <= c < 3 ==> #[trigger] self.chan(x, y, c) == self.chan(0, 0, c)
    }
}

/// An in-memory RGB raster whose storage always holds `width * height * 3` bytes.
pub struct Raster {
    width: u32,
    height: u32,
    data: Vec<u8>,
}

impl View for Raster {
    type V = RasterView;

    closed spec fn view(&self) -> RasterView {
        RasterView { width: self.width as nat, height: self.height as nat, data: self.data@ }
    }
}

/// The byte of channel `c` of an in-bounds pixel lies inside the storage.
pub proof fn lemma_offset_in_range(w: nat, h: nat, x: int, y: int, c: int)
    requires
        0 <= x < w,
        0 <= y < h,
        0 <= c < 3,
    ensures
        0 <= (y * w + x) * 3 + c < w * h * 3,
        (y * w + x) < w * h,
{
    assert(y * w + x < w * h) by (nonlinear_arith)
        requires
            0 <= x < w,
            0 <= y < h,
    ;
    assert(0 <= y * w) by (nonlinear_arith)
        requires
            0 <= y,
    ;
}

/// The offset of an in-bounds channel gives back its column, row and channel.
pub proof fn lemma_offset_coords(w: nat, h: nat, x: int, y: int, c: int)
    requires
        0 <= x < w,
        0 <= y < h,
        0 <= c < 3,
    ensures
        ((y * w + x) * 3 + c) / 3 == y * w + x,
        ((y * w + x) * 3 + c) % 3 == c,
        (((y * w + x) * 3 + c) / 3) % (w as int) == x,
        (((y * w + x) * 3 + c) / 3) / (w as int) == y,
{
    lemma_offset_in_range(w, h, x, y, c);
    lemma_fundamental_div_mod_converse((y * w + x) * 3 + c, 3, y * w + x, c);
    lemma_fundamental_div_mod_converse(y * w + x, w as int, y, x);
}

/// Every byte of the storage is channel `i % 3` of an in-bounds pixel.
pub proof fn lemma_byte_coords(w: nat, h: nat, i: int)
    requires
        0 <= i < w * h * 3,
    ensures
        w > 0,
        0 <= (i / 3) % (w as int) < w,
        0 <= (i / 3) / (w as int) < h,
        0 <= i % 3 < 3,
        (((i / 3) / (w as int)) * w + (i / 3) % (w as int)) * 3 + i % 3 == i,
{
    let p = i / 3;
    assert(i == 3 * p + i % 3) by {
        vstd::arithmetic::div_mod::lemma_fundamental_div_mod(i, 3);
    }
    assert(p < w * h);
    assert(w > 0) by (nonlinear_arith)
        requires
            0 <= i < w * h * 3,
    ;
    let q = p / (w as int);
    let r = p % (w as int);
    assert(p == (w as int) * q + r) by {
        vstd::arithmetic::div_mod::lemma_fundamental_div_mod(p, w as int);
    }
    assert(0 <= r < w);
    assert(0 <= q < h) by (nonlinear_arith)
        requires
            p == (w as int) * q + r,
            0 <= r < w,
            0 <= p < w * h,
            w > 0,
    ;
    assert(q * w + r == p) by (nonlinear_arith)
        requires
            p == (w as int) * q + r,
    ;
}

impl Raster {
    #[verifier::type_invariant]
    spec fn inv(&self) -> bool {
        self.data@.len() == self.width as int * self.height as int * 3
    }

    /// A `width x height` raster with every channel zero.
    pub fn new(width: u32, height: u32) -> (r: Raster)
        requires
            width as int * height as int * 3 <= usize::MAX,
        ensures
            r@.width == width,
            r@.height == height,
            r@.data == Seq::new(width as nat * height as nat * 3, |i: int| 0u8),
    {
        let len = (width as usize) * (height as usize) * 3;
        Raster { width, height, data: vec![0u8; len] }
    }

    /// Wraps `data` as a `width x height` raster; `None` when its length is
    /// not `width * height * 3`.
    pub fn from_raw(width: u32, height: u32, data: Vec<u8>) -> (r: Option<Raster>)
        ensures
            r is Some <==> data@.len() == width as int * height as int * 3,
            r matches Some(img) ==> img@ == (RasterView {
                width: width as nat,
                height: height as nat,
                data: data@,
            }),
    {
        assert(width as int * height as int <= u32::MAX as int * u32::MAX as int) by (nonlinear_arith)
            requires
                width <= u32::MAX,
                height <= u32::MAX,
        ;
        let area: u128 = (width as u128) * (height as u128);
        if area * 3 == data.len() as u128 {
            Some(Raster { width, height, data })
        } else {
            None
        }
    }

    /// Wraps `data`, whose length is already known to fit the dimensions.
    pub fn from_vec(width: u32, height: u32, data: Vec<u8>) -> (r: Raster)
        requires
            data@.len() == width as int * height as int * 3,
        ensures
            r@ == (RasterView { width: width as nat, height: height as nat, data: data@ }),
    {
        Raster { width, height, data }
    }

    pub fn width(&self) -> (w: u32)
        ensures
            w == self@.width,
            self@.wf(),
    {
        proof {
            use_type_invariant(self);
        }
        self.width
    }

    pub fn height(&self) -> (h: u32)
        ensures
            h == self@.height,
            self@.wf(),
    {
        proof {
            use_type_invariant(self);
        }
        self.height
    }

    /// The pixel storage.
    pub fn as_raw(&self) -> (s: &[u8])
        ensures
            s@ == self@.data,
            self@.wf(),
    {
        proof {
            use_type_invariant(self);
        }
        self.data.as_slice()
    }

    /// Gives up the raster, keeping its storage.
    pub fn into_raw(self) -> (v: Vec<u8>)
        ensures
            v@ == self@.data,
    {
        self.data
    }

    /// Channel `c` of pixel `(x, y)`.
    pub fn get_channel(&self, x: u32, y: u32, c: usize) -> (v: u8)
        requires
            self@.in_bounds(x as int, y as int),
            c < 3,
        ensures
            v == self@.chan(x as int, y as int, c as int),
    {
        let len = self.data.len();
        proof {
            use_type_invariant(self);
            lemma_offset_in_range(self.width as nat, self.height as nat, x as int, y as int, c as int);
            let w = self.width as int;
            let h = self.height as int;
            assert(0 <= y as int * w) by (nonlinear_arith)
                requires
                    0 <= y as int,
                    0 <= w,
            ;
            assert(w * h * 3 == self.data@.len());
            assert(y as int * w + (x as int) < w * h);
        }
        let row: usize = (y as usize) * (self.width as usize);
        let px: usize = row + (x as usize);
        self.data[px * 3 + c]
    }
}

} // verus!
