use vstd::arithmetic::div_mod::{
    lemma_div_pos_is_pos, lemma_fundamental_div_mod, lemma_fundamental_div_mod_converse,
    lemma_mod_pos_bound, lemma_multiply_divide_lt,
};
use vstd::prelude::*;

verus! {

/// Number of bytes that a `width` by `height` raster with `channels` bytes per pixel occupies.
pub open spec fn raster_len(width: nat, height: nat, channels: nat) -> nat {
    channels * width * height
}

/// Offset of the first byte of pixel `(x, y)` in a row-major raster.
pub open spec fn raster_offset(width: nat, channels: nat, x: int, y: int) -> int {
    channels * (y * width + x)
}

/// Every pixel inside the raster lies inside its buffer.
pub proof fn lemma_raster_offset_in_bounds(width: nat, height: nat, channels: nat, x: int, y: int)
    requires
        0 <= x < width,
        0 <= y < height,
    ensures
        0 <= y * width + x < width * height,
        0 <= raster_offset(width, channels, x, y),
        raster_offset(width, channels, x, y) + channels <= raster_len(width, height, channels),
        raster_len(width, height, channels) == channels * (width * height),
{
    assert(y * width + x < width * height) by (nonlinear_arith)
        requires
            0 <= x < width,
            0 <= y < height,
    ;
    assert(0 <= y * width + x) by (nonlinear_arith)
        requires
            0 <= x,
            0 <= y,
    ;
    let k: int = y * width + x;
    let n: int = (width * height) as int;
    assert(channels * k + channels <= channels * n) by (nonlinear_arith)
        requires
            0 <= k < n,
            0 <= channels,
    ;
    assert(0 <= channels * k) by (nonlinear_arith)
        requires
            0 <= k,
            0 <= channels,
    ;
    assert(channels * width * height == channels * (width * height)) by (nonlinear_arith);
}

/// Pixel `(x1, y1)` comes before pixel `(x2, y2)` in a raster `width` wide where it stands
/// in a row above, or in the same row further left.
pub proof fn lemma_raster_order(width: int, x1: int, y1: int, x2: int, y2: int)
    requires
        0 <= x1 < width,
        0 <= x2,
        0 <= y1,
        y1 < y2 || (y1 == y2 && x1 < x2),
    ensures
        y1 * width + x1 < y2 * width + x2,
        raster_offset(width as nat, 4, x1, y1) + 4 <= raster_offset(width as nat, 4, x2, y2),
        raster_offset(width as nat, 1, x1, y1) + 1 <= raster_offset(width as nat, 1, x2, y2),
{
    if y1 < y2 {
        assert((y1 + 1) * width <= y2 * width) by (nonlinear_arith)
            requires
                y1 + 1 <= y2,
                0 <= width,
        ;
        assert((y1 + 1) * width == y1 * width + width) by (nonlinear_arith);
    }
}

/// The row-major raster whose pixel `(x, y)` holds the bytes `px(x, y)`.
pub open spec fn raster_of(
    width: nat,
    height: nat,
    channels: nat,
    px: spec_fn(int, int) -> Seq<u8>,
) -> Seq<u8> {
    Seq::new(
        raster_len(width, height, channels),
        |i: int|
            px((i / channels as int) % width as int, (i / channels as int) / width as int)[i
                % channels as int],
    )
}

/// Byte `c` of pixel `(x, y)` has the index `channels * (y * width + x) + c`, and no other
/// byte has.
pub proof fn lemma_raster_index(width: nat, height: nat, channels: nat, x: int, y: int, c: int)
    requires
        0 <= x < width,
        0 <= y < height,
        0 <= c < channels,
    ensures
        0 <= raster_offset(width, channels, x, y) + c < raster_len(width, height, channels),
        (raster_offset(width, channels, x, y) + c) % channels as int == c,
        ((raster_offset(width, channels, x, y) + c) / channels as int) % width as int == x,
        ((raster_offset(width, channels, x, y) + c) / channels as int) / width as int == y,
{
    lemma_raster_offset_in_bounds(width, height, channels, x, y);
    let k: int = y * width + x;
    let i: int = raster_offset(width, channels, x, y) + c;
    assert(i == k * channels + c) by (nonlinear_arith)
        requires
            i == channels * k + c,
    ;
    lemma_fundamental_div_mod_converse(i, channels as int, k, c);
    lemma_fundamental_div_mod_converse(k, width as int, y, x);
}

/// Every index of a raster is that of one byte of one pixel inside it.
pub proof fn lemma_raster_index_inverse(width: nat, height: nat, channels: nat, i: int)
    requires
        0 <= i < raster_len(width, height, channels),
    ensures
        0 < width,
        0 < channels,
        0 <= ((i / channels as int) % (width as int)) < width,
        0 <= ((i / channels as int) / (width as int)) < height,
        0 <= (i % (channels as int)) < channels,
        i == raster_offset(
            width,
            channels,
            (i / channels as int) % width as int,
            (i / channels as int) / width as int,
        ) + i % channels as int,
{
    let ch: int = channels as int;
    let w: int = width as int;
    let h: int = height as int;
    assert(ch > 0 && w > 0 && h > 0 && raster_len(width, height, channels) == ch * (w * h))
        by (nonlinear_arith)
        requires
            0 <= i < channels * width * height,
            raster_len(width, height, channels) == channels * width * height,
            ch == channels,
            w == width,
            h == height,
    ;
    let k: int = i / ch;
    lemma_fundamental_div_mod(i, ch);
    lemma_mod_pos_bound(i, ch);
    lemma_div_pos_is_pos(i, ch);
    lemma_multiply_divide_lt(i, ch, w * h);
    lemma_fundamental_div_mod(k, w);
    lemma_mod_pos_bound(k, w);
    lemma_div_pos_is_pos(k, w);
    lemma_multiply_divide_lt(k, w, h);
    assert(k == (k / w) * w + k % w) by (nonlinear_arith)
        requires
            k == w * (k / w) + k % w,
    ;
}

/// A buffer is the raster of `px` where it has the length of one and agrees with `px` byte
/// by byte.
pub proof fn lemma_raster_of_intro(
    data: Seq<u8>,
    width: nat,
    height: nat,
    channels: nat,
    px: spec_fn(int, int) -> Seq<u8>,
)
    requires
        data.len() == raster_len(width, height, channels),
        forall|x: int, y: int, c: int|
            0 <= x < width && 0 <= y < height && 0 <= c < channels ==> data[raster_offset(
                width,
                channels,
                x,
                y,
            ) + c] == #[trigger] px(x, y)[c],
    ensures
        data == raster_of(width, height, channels, px),
{
    let r = raster_of(width, height, channels, px);
    assert forall|i: int| 0 <= i < data.len() implies data[i] == r[i] by {
        lemma_raster_index_inverse(width, height, channels, i);
        let x = (i / channels as int) % width as int;
        let y = (i / channels as int) / width as int;
        let c = i % channels as int;
        assert(data[raster_offset(width, channels, x, y) + c] == px(x, y)[c]);
    }
    assert(data =~= r);
}

/// The bytes of pixel `(x, y)` of the raster of `px` are `px(x, y)`.
pub proof fn lemma_raster_of_pixel(
    width: nat,
    height: nat,
    channels: nat,
    px: spec_fn(int, int) -> Seq<u8>,
    x: int,
    y: int,
)
    requires
        0 <= x < width,
        0 <= y < height,
        px(x, y).len() == channels,
    ensures
        raster_of(width, height, channels, px).subrange(
            raster_offset(width, channels, x, y),
            raster_offset(width, channels, x, y) + channels,
        ) == px(x, y),
{
    let r = raster_of(width, height, channels, px);
    let at = raster_offset(width, channels, x, y);
    lemma_raster_offset_in_bounds(width, height, channels, x, y);
    assert forall|c: int| 0 <= c < channels implies r[at + c] == #[trigger] px(x, y)[c] by {
        lemma_raster_index(width, height, channels, x, y, c);
    }
    assert(r.subrange(at, at + channels) =~= px(x, y));
}

/// The part of the RGBA raster `src`, `src_width` wide, that starts at `(x0, y0)` and is
/// `width` wide and `height` high.
pub open spec fn spec_crop(
    src: Seq<u8>,
    src_width: nat,
    x0: nat,
    y0: nat,
    width: nat,
    height: nat,
) -> Seq<u8> {
    raster_of(
        width,
        height,
        4,
        |x: int, y: int|
            src.subrange(
                raster_offset(src_width, 4, x0 + x, y0 + y),
                raster_offset(src_width, 4, x0 + x, y0 + y) + 4,
            ),
    )
}

/// Pixel `(x, y)` of a part of a raster is pixel `(x0 + x, y0 + y)` of the raster.
pub proof fn lemma_crop_pixel(
    src: Seq<u8>,
    src_width: nat,
    x0: nat,
    y0: nat,
    width: nat,
    height: nat,
    x: int,
    y: int,
)
    requires
        0 <= x < width,
        0 <= y < height,
        0 <= raster_offset(src_width, 4, x0 + x, y0 + y),
        raster_offset(src_width, 4, x0 + x, y0 + y) + 4 <= src.len(),
    ensures
        spec_crop(src, src_width, x0, y0, width, height).subrange(
            raster_offset(width, 4, x, y),
            raster_offset(width, 4, x, y) + 4,
        ) == src.subrange(
            raster_offset(src_width, 4, x0 + x, y0 + y),
            raster_offset(src_width, 4, x0 + x, y0 + y) + 4,
        ),
{
    lemma_raster_of_pixel(
        width,
        height,
        4,
        |x: int, y: int|
            src.subrange(
                raster_offset(src_width, 4, x0 + x, y0 + y),
                raster_offset(src_width, 4, x0 + x, y0 + y) + 4,
            ),
        x,
        y,
    );
}

/// What `image::imageops::resize` with the nearest-neighbour filter makes of a `width` by
/// `height` RGBA buffer when asked for `nwidth` by `nheight` pixels.
pub uninterp spec fn nearest_resized(
    width: u32,
    height: u32,
    data: Seq<u8>,
    nwidth: u32,
    nheight: u32,
) -> Seq<u8>;

/// `image::imageops::resize` with `FilterType::Nearest`, on the RGBA image that
/// `ImageBuffer::from_raw` makes of the buffer. The result is the buffer of an image of the
/// size asked for; which pixels it holds is left to the name `nearest_resized`. `requires`
/// keeps the buffers that the sampling allocates (one of 32-bit floats, `width` by `nheight`,
/// and the result) within what a vector can hold.
#[verifier::external_body]
fn resize_nearest(width: u32, height: u32, data: Vec<u8>, nwidth: u32, nheight: u32) -> (out: Vec<u8>)
    requires
        data@.len() == raster_len(width as nat, height as nat, 4),
        1 <= width,
        1 <= height,
        1 <= nwidth,
        1 <= nheight,
        16 * width * nheight <= isize::MAX,
        4 * nwidth * nheight <= isize::MAX,
    ensures
        out@ == nearest_resized(width, height, data@, nwidth, nheight),
        out@.len() == raster_len(nwidth as nat, nheight as nat, 4),
{
    let img = image::RgbaImage::from_raw(width, height, data).unwrap();
    image::imageops::resize(&img, nwidth, nheight, image::imageops::FilterType::Nearest).into_raw()
}

/// An RGBA raster: row-major, four bytes per pixel, red first.
#[derive(Debug, PartialEq, Eq, Hash)]
pub struct RgbaBitmap {
    width: u32,
    height: u32,
    data: Vec<u8>,
}

impl View for RgbaBitmap {
    type V = Seq<u8>;

    closed spec fn view(&self) -> Seq<u8> {
        self.data@
    }
}

impl RgbaBitmap {
    #[verifier::type_invariant]
    pub closed spec fn inv(&self) -> bool {
        self.data@.len() == raster_len(self.width as nat, self.height as nat, 4)
    }

    pub closed spec fn spec_width(&self) -> nat {
        self.width as nat
    }

    pub closed spec fn spec_height(&self) -> nat {
        self.height as nat
    }

    /// The buffer holds exactly the pixels of the raster.
    pub open spec fn wf(&self) -> bool {
        &&& self@.len() == raster_len(self.spec_width(), self.spec_height(), 4)
        &&& self.spec_width() <= u32::MAX
        &&& self.spec_height() <= u32::MAX
    }

    pub open spec fn contains(&self, x: int, y: int) -> bool {
        0 <= x < self.spec_width() && 0 <= y < self.spec_height()
    }

    /// The four bytes of pixel `(x, y)`.
    pub open spec fn pixel(&self, x: int, y: int) -> Seq<u8> {
        let at = raster_offset(self.spec_width(), 4, x, y);
        self@.subrange(at, at + 4)
    }

    /// Takes a buffer as a raster. The buffer has to hold exactly `4 * width * height` bytes.
    pub fn from_raw(width: u32, height: u32, data: Vec<u8>) -> (r: Option<Self>)
        ensures
            r.is_some() <==> data@.len() == raster_len(width as nat, height as nat, 4),
            r matches Some(b) ==> b@ == data@ && b.spec_width() == width && b.spec_height()
                == height && b.wf(),
    {
        assert(4 * (width as int) * (height as int) <= 4 * 0xffff_ffff * 0xffff_ffff)
            by (nonlinear_arith)
            requires
                0 <= width <= 0xffff_ffff,
                0 <= height <= 0xffff_ffff,
        ;
        assert(4 * (width as int) >= 0);
        let want: u128 = 4u128 * (width as u128) * (height as u128);
        assert(want == raster_len(width as nat, height as nat, 4)) by (nonlinear_arith)
            requires
                want == 4 * (width as int) * (height as int),
        ;
        if data.len() as u128 == want {
            Some(Self { width, height, data })
        } else {
            None
        }
    }

    /// Takes a buffer that is known to hold exactly the pixels of the raster.
    pub(crate) fn from_parts(width: u32, height: u32, data: Vec<u8>) -> (b: Self)
        requires
            data@.len() == raster_len(width as nat, height as nat, 4),
        ensures
            b@ == data@,
            b.spec_width() == width,
            b.spec_height() == height,
            b.wf(),
    {
        Self { width, height, data }
    }

    pub fn width(&self) -> (w: u32)
        ensures
            w == self.spec_width(),
            self.wf(),
    {
        proof {
            use_type_invariant(self);
        }
        self.width
    }

    pub fn height(&self) -> (h: u32)
        ensures
            h == self.spec_height(),
            self.wf(),
    {
        proof {
            use_type_invariant(self);
        }
        self.height
    }

    pub fn dimensions(&self) -> (d: (u32, u32))
        ensures
            d.0 == self.spec_width(),
            d.1 == self.spec_height(),
            self.wf(),
    {
        proof {
            use_type_invariant(self);
        }
        (self.width, self.height)
    }

    pub fn as_raw(&self) -> (r: &Vec<u8>)
        ensures
            r@ == self@,
            self.wf(),
    {
        proof {
            use_type_invariant(self);
        }
        &self.data
    }

    pub fn into_raw(self) -> (r: Vec<u8>)
        ensures
            r@ == self@,
            self.wf(),
    {
        proof {
            use_type_invariant(&self);
        }
        self.data
    }

    /// The window of `width` by `height` pixels whose left top corner is pixel `(x0, y0)`.
    pub fn crop(&self, x0: u32, y0: u32, width: u32, height: u32) -> (out: Self)
        requires
            x0 + width <= self.spec_width(),
            y0 + height <= self.spec_height(),
        ensures
            out.wf(),
            out.spec_width() == width,
            out.spec_height() == height,
            out@ == spec_crop(
                self@,
                self.spec_width(),
                x0 as nat,
                y0 as nat,
                width as nat,
                height as nat,
            ),
    {
        let ghost px = |x: int, y: int|
            self@.subrange(
                raster_offset(self.spec_width(), 4, x0 + x, y0 + y),
                raster_offset(self.spec_width(), 4, x0 + x, y0 + y) + 4,
            );
        let mut data: Vec<u8> = Vec::new();
        let mut y: u32 = 0;
        while y < height
            invariant
                x0 + width <= self.spec_width(),
                y0 + height <= self.spec_height(),
                y <= height,
                data@.len() == 4 * (y * width),
                forall|x1: int, y1: int, c: int|
                    0 <= x1 < width && 0 <= y1 < y && 0 <= c < 4 ==> data@[raster_offset(
                        width as nat,
                        4,
                        x1,
                        y1,
                    ) + c] == #[trigger] px(x1, y1)[c],
                forall|x1: int, y1: int| #[trigger] px(x1, y1) == self.pixel(x0 + x1, y0 + y1),
            decreases height - y,
        {
            let mut x: u32 = 0;
            while x < width
                invariant
                    x0 + width <= self.spec_width(),
                    y0 + height <= self.spec_height(),
                    y < height,
                    x <= width,
                    data@.len() == 4 * (y * width + x),
                    forall|x1: int, y1: int, c: int|
                        0 <= x1 < width && 0 <= y1 && (y1 < y || (y1 == y && x1 < x)) && 0 <= c
                            < 4 ==> data@[raster_offset(width as nat, 4, x1, y1) + c]
                            == #[trigger] px(x1, y1)[c],
                    forall|x1: int, y1: int| #[trigger] px(x1, y1) == self.pixel(x0 + x1, y0 + y1),
                decreases width - x,
            {
                let p = self.get_pixel(x0 + x, y0 + y);
                let ghost before = data@;
                data.push(p[0]);
                data.push(p[1]);
                data.push(p[2]);
                data.push(p[3]);
                proof {
                    assert forall|x1: int, y1: int, c: int|
                        0 <= x1 < width && 0 <= y1 && (y1 < y || (y1 == y && x1 < x + 1)) && 0
                            <= c < 4 implies data@[raster_offset(width as nat, 4, x1, y1) + c]
                        == #[trigger] px(x1, y1)[c] by {
                        if y1 == y && x1 == x {
                            assert(px(x1, y1) == self.pixel(x0 + x, y0 + y));
                        } else {
                            lemma_raster_order(width as int, x1, y1, x as int, y as int);
                            assert(data@[raster_offset(width as nat, 4, x1, y1) + c]
                                == before[raster_offset(width as nat, 4, x1, y1) + c]);
                        }
                    }
                }
                x += 1;
            }
            proof {
                assert((y + 1) * width == y * width + width) by (nonlinear_arith);
            }
            y += 1;
        }
        proof {
            assert(raster_len(width as nat, height as nat, 4) == 4 * (height * width))
                by (nonlinear_arith);
            lemma_raster_of_intro(data@, width as nat, height as nat, 4, px);
        }
        Self { width, height, data }
    }

    /// The raster enlarged or reduced to `nwidth` by `nheight` pixels, each pixel taken from
    /// the nearest one of `self`.
    pub fn resized_nearest(self, nwidth: u32, nheight: u32) -> (out: Self)
        requires
            1 <= self.spec_width(),
            1 <= self.spec_height(),
            1 <= nwidth,
            1 <= nheight,
            16 * self.spec_width() * nheight <= isize::MAX,
            4 * nwidth * nheight <= isize::MAX,
        ensures
            out.wf(),
            out.spec_width() == nwidth,
            out.spec_height() == nheight,
            out@ == nearest_resized(
                self.spec_width() as u32,
                self.spec_height() as u32,
                self@,
                nwidth,
                nheight,
            ),
    {
        proof {
            use_type_invariant(&self);
        }
        let data = resize_nearest(self.width, self.height, self.data, nwidth, nheight);
        Self { width: nwidth, height: nheight, data }
    }

    pub fn get_pixel(&self, x: u32, y: u32) -> (p: [u8; 4])
        requires
            self.contains(x as int, y as int),
        ensures
            p@ == self.pixel(x as int, y as int),
    {
        proof {
            use_type_invariant(self);
            lemma_raster_offset_in_bounds(self.width as nat, self.height as nat, 4, x as int, y as int);
        }
        assert((y as int) * (self.width as int) >= 0) by (nonlinear_arith)
            requires
                y >= 0,
                self.width >= 0,
        ;
        let len: usize = self.data.len();
        assert(4 * ((self.width as int) * (self.height as int)) == len);
        let k: usize = (y as usize) * (self.width as usize) + (x as usize);
        let at: usize = 4 * k;
        let p: [u8; 4] = [self.data[at], self.data[at + 1], self.data[at + 2], self.data[at + 3]];
        assert(p@ =~= self.pixel(x as int, y as int));
        p
    }
}

impl Clone for RgbaBitmap {
    fn clone(&self) -> (r: Self)
        ensures
            r@ == self@,
            r.spec_width() == self.spec_width(),
            r.spec_height() == self.spec_height(),
    {
        proof {
            use_type_invariant(self);
        }
        let data = self.data.clone();
        assert(data@ =~= self.data@);
        Self { width: self.width, height: self.height, data }
    }
}

/// A single-channel raster: row-major, one byte per pixel.
#[derive(Debug, PartialEq, Eq, Hash)]
pub struct GrayBitmap {
    width: u32,
    height: u32,
    data: Vec<u8>,
}

impl View for GrayBitmap {
    type V = Seq<u8>;

    closed spec fn view(&self) -> Seq<u8> {
        self.data@
    }
}

impl GrayBitmap {
    #[verifier::type_invariant]
    pub closed spec fn inv(&self) -> bool {
        self.data@.len() == raster_len(self.width as nat, self.height as nat, 1)
    }

    pub closed spec fn spec_width(&self) -> nat {
        self.width as nat
    }

    pub closed spec fn spec_height(&self) -> nat {
        self.height as nat
    }

    /// The buffer holds exactly the pixels of the raster.
    pub open spec fn wf(&self) -> bool {
        &&& self@.len() == raster_len(self.spec_width(), self.spec_height(), 1)
        &&& self.spec_width() <= u32::MAX
        &&& self.spec_height() <= u32::MAX
    }

    pub open spec fn contains(&self, x: int, y: int) -> bool {
        0 <= x < self.spec_width() && 0 <= y < self.spec_height()
    }

    /// The byte of pixel `(x, y)`.
    pub open spec fn luma(&self, x: int, y: int) -> u8 {
        self@[raster_offset(self.spec_width(), 1, x, y)]
    }

    /// Takes a buffer as a raster. The buffer has to hold exactly `width * height` bytes.
    pub fn from_raw(width: u32, height: u32, data: Vec<u8>) -> (r: Option<Self>)
        ensures
            r.is_some() <==> data@.len() == raster_len(width as nat, height as nat, 1),
            r matches Some(b) ==> b@ == data@ && b.spec_width() == width && b.spec_height()
                == height && b.wf(),
    {
        assert((width as int) * (height as int) <= 0xffff_ffff * 0xffff_ffff) by (nonlinear_arith)
            requires
                0 <= width <= 0xffff_ffff,
                0 <= height <= 0xffff_ffff,
        ;
        let want: u128 = (width as u128) * (height as u128);
        assert(want == raster_len(width as nat, height as nat, 1)) by (nonlinear_arith)
            requires
                want == (width as int) * (height as int),
        ;
        if data.len() as u128 == want {
            Some(Self { width, height, data })
        } else {
            None
        }
    }

    /// Takes a buffer that is known to hold exactly the pixels of the raster.
    pub(crate) fn from_parts(width: u32, height: u32, data: Vec<u8>) -> (b: Self)
        requires
            data@.len() == raster_len(width as nat, height as nat, 1),
        ensures
            b@ == data@,
            b.spec_width() == width,
            b.spec_height() == height,
            b.wf(),
    {
        Self { width, height, data }
    }

    pub fn width(&self) -> (w: u32)
        ensures
            w == self.spec_width(),
            self.wf(),
    {
        proof {
            use_type_invariant(self);
        }
        self.width
    }

    pub fn height(&self) -> (h: u32)
        ensures
            h == self.spec_height(),
            self.wf(),
    {
        proof {
            use_type_invariant(self);
        }
        self.height
    }

    pub fn dimensions(&self) -> (d: (u32, u32))
        ensures
            d.0 == self.spec_width(),
            d.1 == self.spec_height(),
            self.wf(),
    {
        proof {
            use_type_invariant(self);
        }
        (self.width, self.height)
    }

    pub fn as_raw(&self) -> (r: &Vec<u8>)
        ensures
            r@ == self@,
            self.wf(),
    {
        proof {
            use_type_invariant(self);
        }
        &self.data
    }

    pub fn into_raw(self) -> (r: Vec<u8>)
        ensures
            r@ == self@,
            self.wf(),
    {
        proof {
            use_type_invariant(&self);
        }
        self.data
    }

    pub fn get_luma(&self, x: u32, y: u32) -> (v: u8)
        requires
            self.contains(x as int, y as int),
        ensures
            v == self.luma(x as int, y as int),
    {
        proof {
            use_type_invariant(self);
            lemma_raster_offset_in_bounds(self.width as nat, self.height as nat, 1, x as int, y as int);
        }
        assert((y as int) * (self.width as int) >= 0) by (nonlinear_arith)
            requires
                y >= 0,
                self.width >= 0,
        ;
        let len: usize = self.data.len();
        assert((self.width as int) * (self.height as int) == len);
        let k: usize = (y as usize) * (self.width as usize) + (x as usize);
        self.data[k]
    }
}

impl Clone for GrayBitmap {
    fn clone(&self) -> (r: Self)
        ensures
            r@ == self@,
            r.spec_width() == self.spec_width(),
            r.spec_height() == self.spec_height(),
    {
        proof {
            use_type_invariant(self);
        }
        let data = self.data.clone();
        assert(data@ =~= self.data@);
        Self { width: self.width, height: self.height, data }
    }
}

} // verus!
