use crate::color::{channel, lemma_channel_bits, lemma_pack_bits, pack_argb, Color};
use crate::rect::{Rect, RectView};
use vstd::arithmetic::div_mod::{lemma_fundamental_div_mod, lemma_fundamental_div_mod_converse};
use vstd::prelude::*;

verus! {

// ---------------------------------------------------------------------------
// Pixels
// ---------------------------------------------------------------------------

/// One channel of `new` laid over the same channel of `old` with opacity
/// `a` out of 255, each part rounded down.
pub open spec fn blend_channel(o: int, n: int, a: int) -> int {
    (o * (255 - a)) / 256 + (n * a) / 256
}

/// The pixel `new` laid over `old`: an opaque pixel replaces `old`, a fully
/// transparent one leaves it, anything between mixes the colour channels by
/// the alpha of `new` (and leaves the alpha byte zero).
pub open spec fn blend_pixel(old: u32, new: u32) -> u32 {
    let a = channel(new, 3);
    if a >= 255 {
        new
    } else if a > 0 {
        pack_argb(
            0,
            blend_channel(channel(old, 2), channel(new, 2), a),
            blend_channel(channel(old, 1), channel(new, 1), a),
            blend_channel(channel(old, 0), channel(new, 0), a),
        ) as u32
    } else {
        old
    }
}

proof fn lemma_blend_channel_bounds(o: int, n: int, a: int)
    requires
        0 <= o < 256,
        0 <= n < 256,
        0 < a < 255,
    ensures
        0 <= (o * (255 - a)) / 256 < 256,
        0 <= (n * a) / 256 < 256,
        0 <= blend_channel(o, n, a) < 256,
{
    assert(0 <= o * (255 - a) <= 255 * (255 - a)) by (nonlinear_arith)
        requires
            0 <= o < 256,
            0 < a < 255,
    ;
    assert(0 <= n * a <= 255 * a) by (nonlinear_arith)
        requires
            0 <= n < 256,
            0 < a < 255,
    ;
    assert((255 * (255 - a)) / 256 + (255 * a) / 256 <= 254);
}

proof fn lemma_shr8(x: u32)
    ensures
        x >> 8u32 == x / 256,
{
    assert(x >> 8u32 == x / 256) by (bit_vector);
}

/// Lays `new` over `old`.
pub fn blend_color(old: Color, new: Color) -> (c: Color)
    ensures
        c.data == blend_pixel(old.data, new.data),
{
    let alpha = (new.data >> 24u32) & 0xFFu32;
    proof {
        lemma_channel_bits(new.data);
        lemma_channel_bits(old.data);
    }
    if alpha >= 255 {
        new
    } else if alpha > 0 {
        let nr = (new.data >> 16u32) & 0xFFu32;
        let ng = (new.data >> 8u32) & 0xFFu32;
        let nb = new.data & 0xFFu32;
        let or = (old.data >> 16u32) & 0xFFu32;
        let og = (old.data >> 8u32) & 0xFFu32;
        let ob = old.data & 0xFFu32;
        let n_alpha = 255 - alpha;
        proof {
            lemma_blend_channel_bounds(or as int, nr as int, alpha as int);
            lemma_blend_channel_bounds(og as int, ng as int, alpha as int);
            lemma_blend_channel_bounds(ob as int, nb as int, alpha as int);
            assert(nr * alpha <= 255 * 255) by (nonlinear_arith)
                requires
                    nr < 256,
                    alpha < 256,
            ;
            assert(ng * alpha <= 255 * 255) by (nonlinear_arith)
                requires
                    ng < 256,
                    alpha < 256,
            ;
            assert(nb * alpha <= 255 * 255) by (nonlinear_arith)
                requires
                    nb < 256,
                    alpha < 256,
            ;
            assert(or * n_alpha <= 255 * 255) by (nonlinear_arith)
                requires
                    or < 256,
                    n_alpha < 256,
            ;
            assert(og * n_alpha <= 255 * 255) by (nonlinear_arith)
                requires
                    og < 256,
                    n_alpha < 256,
            ;
            assert(ob * n_alpha <= 255 * 255) by (nonlinear_arith)
                requires
                    ob < 256,
                    n_alpha < 256,
            ;
        }
        let (x1, x2, x3) = (nr * alpha, ng * alpha, nb * alpha);
        let (x4, x5, x6) = (or * n_alpha, og * n_alpha, ob * n_alpha);
        let n_r = x1 >> 8u32;
        let n_g = x2 >> 8u32;
        let n_b = x3 >> 8u32;
        let o_r = x4 >> 8u32;
        let o_g = x5 >> 8u32;
        let o_b = x6 >> 8u32;
        proof {
            lemma_shr8(x1);
            lemma_shr8(x2);
            lemma_shr8(x3);
            lemma_shr8(x4);
            lemma_shr8(x5);
            lemma_shr8(x6);
            lemma_pack_bits(0, o_r, o_g, o_b);
            lemma_pack_bits(0, n_r, n_g, n_b);
            assert(0u32 << 24u32 == 0u32) by (bit_vector);
            assert((0u32 << 24u32) | (o_r << 16u32) == o_r << 16u32) by (bit_vector);
            assert((0u32 << 24u32) | (n_r << 16u32) == n_r << 16u32) by (bit_vector);
        }
        Color {
            data: ((o_r << 16u32) | (o_g << 8u32) | o_b) + ((n_r << 16u32) | (n_g << 8u32) | n_b),
        }
    } else {
        old
    }
}

// ---------------------------------------------------------------------------
// Regions of interest
// ---------------------------------------------------------------------------

/// The index of pixel `(i, j)` of the region `rect` in a buffer whose rows
/// are `w` pixels wide.
pub open spec fn roi_index(rect: RectView, w: int, i: int, j: int) -> int {
    (rect.top() + i) * w + rect.left() + j
}

/// The region lies in a buffer of `len` pixels with rows `w` pixels wide.
pub open spec fn roi_fits(rect: RectView, w: int, len: int) -> bool {
    &&& rect.wf()
    &&& 0 <= rect.x
    &&& 0 <= rect.y
    &&& rect.x + rect.w <= w
    &&& (rect.y + rect.h) * w <= len
}

/// Buffer index `k` lies in the first `hm` rows and `wm` columns of the
/// region `rect` of a buffer with rows `w` pixels wide.
pub open spec fn covers(rect: RectView, w: int, hm: int, wm: int, k: int) -> bool {
    &&& w > 0
    &&& rect.top() <= k / w < rect.top() + hm
    &&& rect.left() <= k % w < rect.left() + wm
}

/// The index in the source region of the pixel that lands on destination
/// index `k`.
pub open spec fn source_index(drect: RectView, dw: int, srect: RectView, sw: int, k: int) -> int {
    roi_index(srect, sw, k / dw - drect.top(), k % dw - drect.left())
}

/// What a pixel becomes: blended with the source pixel, or replaced by it.
pub open spec fn combine(blend: bool, old: u32, new: u32) -> u32 {
    if blend {
        blend_pixel(old, new)
    } else {
        new
    }
}

/// The destination buffer after laying the region `src` of `sdata` over the
/// region `drect` of `ddata`: the overlap of the two regions' sizes is
/// combined pixel by pixel, row by row, and everything else is kept.
pub open spec fn apply_region(
    blend: bool,
    ddata: Seq<Color>,
    dw: int,
    drect: RectView,
    sdata: Seq<Color>,
    sw: int,
    srect: RectView,
) -> Seq<Color> {
    let hm = crate::rect::spec_min(drect.h, srect.h);
    let wm = crate::rect::spec_min(drect.w, srect.w);
    Seq::new(
        ddata.len(),
        |k: int|
            if covers(drect, dw, hm, wm, k) {
                Color {
                    data: combine(
                        blend,
                        ddata[k].data,
                        sdata[source_index(drect, dw, srect, sw, k)].data,
                    ),
                }
            } else {
                ddata[k]
            },
    )
}

/// A rectangular part of an image, read only.
pub struct ImageRoi<'a> {
    rect: Rect,
    w: i32,
    data: &'a [Color],
}

impl<'a> ImageRoi<'a> {
    pub closed spec fn region(&self) -> RectView {
        self.rect@
    }

    pub closed spec fn row_width(&self) -> int {
        self.w as int
    }

    pub closed spec fn pixels(&self) -> Seq<Color> {
        self.data@
    }

    /// The region lies inside the pixels.
    pub open spec fn fits(&self) -> bool {
        roi_fits(self.region(), self.row_width(), self.pixels().len() as int)
    }

    /// The region `rect` of pixels whose rows are `w` wide.
    pub fn new(rect: &Rect, w: i32, data: &'a [Color]) -> (r: ImageRoi<'a>)
        ensures
            r.region() == rect@,
            r.row_width() == w,
            r.pixels() == data@,
    {
        ImageRoi { rect: *rect, w, data }
    }
}

/// The index of pixel `(i, j)` of a fitting region, and that it is in range.
proof fn lemma_roi_index_in_range(rect: RectView, w: int, len: int, i: int, j: int)
    requires
        roi_fits(rect, w, len),
        0 <= i < rect.h,
        0 <= j < rect.w,
    ensures
        0 <= roi_index(rect, w, i, j) < len,
        roi_index(rect, w, i, j) + 1 <= (rect.top() + i + 1) * w,
        w > 0,
        roi_index(rect, w, i, j) / w == rect.top() + i,
        roi_index(rect, w, i, j) % w == rect.left() + j,
{
    let t = rect.top() + i;
    let c = rect.left() + j;
    assert(0 <= c < w);
    assert(t * w >= 0) by (nonlinear_arith)
        requires
            t >= 0,
            w > 0,
    ;
    assert((t + 1) * w <= (rect.y + rect.h) * w) by (nonlinear_arith)
        requires
            t + 1 <= rect.y + rect.h,
            w > 0,
    ;
    assert((t + 1) * w == t * w + w) by (nonlinear_arith);
    lemma_fundamental_div_mod_converse(t * w + c, w, t, c);
}

/// Lays (`blend`) or copies the region `src` onto the region `rect` of
/// `dst`, whose rows are `w` pixels wide.
fn apply_roi(blend: bool, dst: &mut [Color], w: i32, rect: &Rect, src: &ImageRoi)
    requires
        roi_fits(rect@, w as int, old(dst)@.len() as int),
        src.fits(),
    ensures
        final(dst)@ == apply_region(
            blend,
            old(dst)@,
            w as int,
            rect@,
            src.pixels(),
            src.row_width(),
            src.region(),
        ),
{
    let ghost d0 = dst@;
    let ghost drect = rect@;
    let ghost srect = src.rect@;
    let ghost dw = w as int;
    let ghost sw = src.w as int;
    let dh = rect.height();
    let sh = src.rect.height();
    let hm = if dh <= sh {
        dh
    } else {
        sh
    };
    let dwid = rect.width();
    let swid = src.rect.width();
    let wm = if dwid <= swid {
        dwid
    } else {
        swid
    };
    let dt = rect.top();
    let dl = rect.left();
    let st = src.rect.top();
    let sl = src.rect.left();
    let ghost target = apply_region(blend, d0, dw, drect, src.data@, sw, srect);
    let dlen = dst.len();
    let slen = src.data.len();
    let mut i: i32 = 0;
    while i < hm
        invariant
            0 <= i <= hm,
            hm == crate::rect::spec_min(drect.h, srect.h),
            wm == crate::rect::spec_min(drect.w, srect.w),
            dt == drect.top(),
            dl == drect.left(),
            st == srect.top(),
            sl == srect.left(),
            dw == w,
            sw == src.w,
            drect == rect@,
            srect == src.rect@,
            roi_fits(drect, dw, d0.len() as int),
            roi_fits(srect, sw, src.data@.len() as int),
            target == apply_region(blend, d0, dw, drect, src.data@, sw, srect),
            dst@.len() == d0.len(),
            dlen == d0.len(),
            slen == src.data@.len(),
            forall|k: int|
                0 <= k < d0.len() ==> #[trigger] dst@[k] == if covers(drect, dw, i as int, wm as int, k) {
                    target[k]
                } else {
                    d0[k]
                },
        decreases hm - i,
    {
        let mut j: i32 = 0;
        while j < wm
            invariant
                0 <= i < hm,
                0 <= j <= wm,
                hm == crate::rect::spec_min(drect.h, srect.h),
                wm == crate::rect::spec_min(drect.w, srect.w),
                dt == drect.top(),
                dl == drect.left(),
                st == srect.top(),
                sl == srect.left(),
                dw == w,
                sw == src.w,
                drect == rect@,
                srect == src.rect@,
                roi_fits(drect, dw, d0.len() as int),
                roi_fits(srect, sw, src.data@.len() as int),
                target == apply_region(blend, d0, dw, drect, src.data@, sw, srect),
                dst@.len() == d0.len(),
                dlen == d0.len(),
                slen == src.data@.len(),
            slen == src.data@.len(),
            dlen == d0.len(),
            slen == src.data@.len(),
                forall|k: int|
                    0 <= k < d0.len() ==> #[trigger] dst@[k] == if covers(
                        drect,
                        dw,
                        i as int,
                        wm as int,
                        k,
                    ) || (covers(drect, dw, i + 1, wm as int, k) && k / dw == dt + i && k % dw
                        < dl + j) {
                        target[k]
                    } else {
                        d0[k]
                    },
            decreases wm - j,
        {
            proof {
                lemma_roi_index_in_range(drect, dw, d0.len() as int, i as int, j as int);
                lemma_roi_index_in_range(srect, sw, src.data@.len() as int, i as int, j as int);
            }
            proof {
                assert(roi_index(drect, dw, i as int, j as int) == (dt + i) * dw + dl + j);
                assert(roi_index(srect, sw, i as int, j as int) == (st + i) * sw + sl + j);
            }
            let k = (dt as usize + i as usize) * (w as usize) + (dl as usize + j as usize);
            let sk = (st as usize + i as usize) * (src.w as usize) + (sl as usize + j as usize);
            let old_px = dst[k];
            let new_px = src.data[sk];
            let px = if blend {
                blend_color(old_px, new_px)
            } else {
                new_px
            };
            dst[k] = px;
            proof {
                let ki = k as int;
                assert(ki == roi_index(drect, dw, i as int, j as int));
                assert(sk as int == roi_index(srect, sw, i as int, j as int));
                assert(source_index(drect, dw, srect, sw, ki) == sk as int);
                assert(covers(drect, dw, hm as int, wm as int, ki));
                assert(!covers(drect, dw, i as int, wm as int, ki));
                assert(old_px == d0[ki]);
                assert(px == target[ki]);
                assert forall|k2: int| 0 <= k2 < d0.len() implies #[trigger] dst@[k2] == if covers(
                    drect,
                    dw,
                    i as int,
                    wm as int,
                    k2,
                ) || (covers(drect, dw, i + 1, wm as int, k2) && k2 / dw == dt + i && k2 % dw < dl
                    + j + 1) {
                    target[k2]
                } else {
                    d0[k2]
                } by {
                    if k2 != ki {
                        lemma_fundamental_div_mod(k2, dw);
                        lemma_fundamental_div_mod(ki, dw);
                        if k2 / dw == dt + i && k2 % dw == dl + j {
                            assert(k2 == dw * (dt + i) + dl + j);
                            assert(ki == (dt + i) * dw + dl + j);
                            assert(dw * (dt + i) == (dt + i) * dw) by (nonlinear_arith);
                        }
                    }
                }
            }
            j = j + 1;
        }
        proof {
            assert forall|k2: int| 0 <= k2 < d0.len() implies #[trigger] dst@[k2] == if covers(
                drect,
                dw,
                i + 1,
                wm as int,
                k2,
            ) {
                target[k2]
            } else {
                d0[k2]
            } by {}
        }
        i = i + 1;
    }
    proof {
        assert(dst@ =~= target) by {
            assert forall|k2: int| 0 <= k2 < d0.len() implies dst@[k2] == target[k2] by {
                if !covers(drect, dw, hm as int, wm as int, k2) {
                    assert(dst@[k2] == d0[k2]);
                }
            }
        }
    }
}

/// Lays the region `src` over the region `rect` of `dst` (rows `w` pixels
/// wide), pixel by pixel, as far as both regions reach.
pub fn roi_blend(dst: &mut [Color], w: i32, rect: &Rect, src: &ImageRoi)
    requires
        roi_fits(rect@, w as int, old(dst)@.len() as int),
        src.fits(),
    ensures
        final(dst)@ == apply_region(
            true,
            old(dst)@,
            w as int,
            rect@,
            src.pixels(),
            src.row_width(),
            src.region(),
        ),
{
    apply_roi(true, dst, w, rect, src)
}

/// Copies the region `src` onto the region `rect` of `dst` (rows `w` pixels
/// wide), as far as both regions reach.
pub fn roi_blit(dst: &mut [Color], w: i32, rect: &Rect, src: &ImageRoi)
    requires
        roi_fits(rect@, w as int, old(dst)@.len() as int),
        src.fits(),
    ensures
        final(dst)@ == apply_region(
            false,
            old(dst)@,
            w as int,
            rect@,
            src.pixels(),
            src.row_width(),
            src.region(),
        ),
{
    apply_roi(false, dst, w, rect, src)
}

// ---------------------------------------------------------------------------
// Images
// ---------------------------------------------------------------------------

/// An image held in memory: `w` by `h` pixels, row by row.
#[derive(Clone)]
pub struct Image {
    w: i32,
    h: i32,
    data: Vec<Color>,
}

impl Image {
    pub closed spec fn spec_width(&self) -> int {
        self.w as int
    }

    pub closed spec fn spec_height(&self) -> int {
        self.h as int
    }

    pub closed spec fn pixels(&self) -> Seq<Color> {
        self.data@
    }

    /// The pixels are exactly the rows of the image.
    pub open spec fn wf(&self) -> bool {
        &&& self.spec_width() >= 0
        &&& self.spec_height() >= 0
        &&& self.pixels().len() == self.spec_width() * self.spec_height()
    }

    /// A black image.
    pub fn new(width: i32, height: i32) -> (r: Image)
        requires
            width >= 0,
            height >= 0,
            width * height <= usize::MAX,
        ensures
            r.spec_width() == width,
            r.spec_height() == height,
            r.pixels().len() == width * height,
            forall|i: int| 0 <= i < r.pixels().len() ==> #[trigger] r.pixels()[i].data == 0xFF000000,
    {
        let black = Color::rgb(0, 0, 0);
        Image::from_color(width, height, black)
    }

    /// An image filled with one colour.
    pub fn from_color(width: i32, height: i32, color: Color) -> (r: Image)
        requires
            width >= 0,
            height >= 0,
            width * height <= usize::MAX,
        ensures
            r.spec_width() == width,
            r.spec_height() == height,
            r.pixels().len() == width * height,
            forall|i: int| 0 <= i < r.pixels().len() ==> #[trigger] r.pixels()[i] == color,
    {
        let n = width as usize * height as usize;
        let mut data: Vec<Color> = Vec::new();
        let mut i: usize = 0;
        while i < n
            invariant
                i <= n,
                data@.len() == i,
                forall|k: int| 0 <= k < i ==> #[trigger] data@[k] == color,
            decreases n - i,
        {
            data.push(color);
            i = i + 1;
        }
        Image::from_data(width, height, data)
    }

    /// An image of the given size over the given pixels.
    pub fn from_data(w: i32, h: i32, data: Vec<Color>) -> (r: Image)
        ensures
            r.spec_width() == w,
            r.spec_height() == h,
            r.pixels() == data@,
    {
        Image { w, h, data }
    }

    pub fn width(&self) -> (w: i32)
        ensures
            w == self.spec_width(),
    {
        self.w
    }

    pub fn height(&self) -> (h: i32)
        ensures
            h == self.spec_height(),
    {
        self.h
    }

    pub fn data(&self) -> (d: &[Color])
        ensures
            d@ == self.pixels(),
    {
        self.data.as_slice()
    }

    /// The region `rect` of the image.
    pub fn roi(&self, rect: &Rect) -> (r: ImageRoi<'_>)
        ensures
            r.region() == rect@,
            r.row_width() == self.spec_width(),
            r.pixels() == self.pixels(),
    {
        ImageRoi::new(rect, self.w, self.data.as_slice())
    }

    /// Lays `src` over the region `rect` of the image.
    pub fn blend_roi(&mut self, rect: &Rect, src: &ImageRoi)
        requires
            roi_fits(rect@, old(self).spec_width(), old(self).pixels().len() as int),
            src.fits(),
        ensures
            final(self).spec_width() == old(self).spec_width(),
            final(self).spec_height() == old(self).spec_height(),
            final(self).pixels() == apply_region(
                true,
                old(self).pixels(),
                old(self).spec_width(),
                rect@,
                src.pixels(),
                src.row_width(),
                src.region(),
            ),
    {
        roi_blend(self.data.as_mut_slice(), self.w, rect, src);
    }

    /// Copies `src` onto the region `rect` of the image.
    pub fn blit_roi(&mut self, rect: &Rect, src: &ImageRoi)
        requires
            roi_fits(rect@, old(self).spec_width(), old(self).pixels().len() as int),
            src.fits(),
        ensures
            final(self).spec_width() == old(self).spec_width(),
            final(self).spec_height() == old(self).spec_height(),
            final(self).pixels() == apply_region(
                false,
                old(self).pixels(),
                old(self).spec_width(),
                rect@,
                src.pixels(),
                src.row_width(),
                src.region(),
            ),
    {
        roi_blit(self.data.as_mut_slice(), self.w, rect, src);
    }
}

/// The number of pixels that `ImageAligned::new(w, h, align)` allocates: the
/// bytes of a `w` by `h` image rounded up to a multiple of `align`, in
/// 4-byte pixels.
pub open spec fn aligned_len(w: int, h: int, align: int) -> int {
    ((w * h * 4 + align - 1) / align) * align / 4
}

/// An image whose memory is a whole number of `align`-byte blocks, zeroed
/// when it is made, so that it can be shared page by page.
pub struct ImageAligned {
    w: i32,
    h: i32,
    data: Vec<Color>,
}

impl ImageAligned {
    /// The size is not negative and the memory holds every pixel.
    pub closed spec fn wf(&self) -> bool {
        &&& self.w >= 0
        &&& self.h >= 0
        &&& self.data@.len() >= self.w * self.h
    }

    pub closed spec fn spec_width(&self) -> int {
        self.w as int
    }

    pub closed spec fn spec_height(&self) -> int {
        self.h as int
    }

    pub closed spec fn pixels(&self) -> Seq<Color> {
        self.data@
    }

    /// A zeroed image whose memory is rounded up to whole `align`-byte blocks.
    pub fn new(w: i32, h: i32, align: usize) -> (r: ImageAligned)
        requires
            w >= 0,
            h >= 0,
            align >= 4,
            align % 4 == 0,
            w * h * 4 + align - 1 <= usize::MAX,
        ensures
            r.wf(),
            r.spec_width() == w,
            r.spec_height() == h,
            r.pixels().len() == aligned_len(w as int, h as int, align as int),
            r.pixels().len() >= w * h,
            forall|i: int| 0 <= i < r.pixels().len() ==> #[trigger] r.pixels()[i].data == 0,
    {
        let size = w as usize * h as usize;
        let size_bytes = size * 4;
        let size_alignments = (size_bytes + (align - 1)) / align;
        proof {
            let (sb, al) = (size_bytes as int, align as int);
            assert(((sb + al - 1) / al) * al >= sb) by (nonlinear_arith)
                requires
                    al > 0,
                    sb >= 0,
            ;
            assert(((sb + al - 1) / al) * al <= sb + al - 1) by (nonlinear_arith)
                requires
                    al > 0,
                    sb >= 0,
            ;
        }
        let size_aligned = size_alignments * align;
        let n = size_aligned / 4;
        proof {
            assert(n >= size);
        }
        let mut data: Vec<Color> = Vec::new();
        let mut i: usize = 0;
        while i < n
            invariant
                i <= n,
                data@.len() == i,
                forall|k: int| 0 <= k < i ==> #[trigger] data@[k].data == 0,
            decreases n - i,
        {
            data.push(Color { data: 0 });
            i = i + 1;
        }
        ImageAligned { w, h, data }
    }

    /// What `wf` means.
    pub proof fn lemma_wf(&self)
        requires
            self.wf(),
        ensures
            self.spec_width() >= 0,
            self.spec_height() >= 0,
            self.pixels().len() >= self.spec_width() * self.spec_height(),
            self.spec_width() <= i32::MAX,
            self.spec_height() <= i32::MAX,
    {
    }

    pub fn width(&self) -> (w: i32)
        ensures
            w == self.spec_width(),
    {
        self.w
    }

    pub fn height(&self) -> (h: i32)
        ensures
            h == self.spec_height(),
    {
        self.h
    }

    pub fn data(&self) -> (d: &[Color])
        ensures
            d@ == self.pixels(),
    {
        self.data.as_slice()
    }

    /// The region `rect` of the image.
    pub fn roi(&self, rect: &Rect) -> (r: ImageRoi<'_>)
        ensures
            r.region() == rect@,
            r.row_width() == self.spec_width(),
            r.pixels() == self.pixels(),
    {
        ImageRoi::new(rect, self.w, self.data.as_slice())
    }

    /// The pixels, to be written by their owner.
    pub fn data_mut(&mut self) -> (d: &mut [Color])
        ensures
            d@ == old(self).pixels(),
            final(self).pixels() == final(d)@,
            final(self).spec_width() == old(self).spec_width(),
            final(self).spec_height() == old(self).spec_height(),
            old(self).wf() && final(d)@.len() == old(self).pixels().len() ==> final(self).wf(),
    {
        self.data.as_mut_slice()
    }

    /// Copies `src` onto the region `rect` of the image.
    pub fn blit_roi(&mut self, rect: &Rect, src: &ImageRoi)
        requires
            roi_fits(rect@, old(self).spec_width(), old(self).pixels().len() as int),
            src.fits(),
        ensures
            old(self).wf() ==> final(self).wf(),
            final(self).spec_width() == old(self).spec_width(),
            final(self).spec_height() == old(self).spec_height(),
            final(self).pixels() == apply_region(
                false,
                old(self).pixels(),
                old(self).spec_width(),
                rect@,
                src.pixels(),
                src.row_width(),
                src.region(),
            ),
    {
        let w = self.w;
        roi_blit(self.data.as_mut_slice(), w, rect, src);
    }
}


/// Pixel `(x, y)` of the `w` by `h` image `data` shown `scale` times larger:
/// the pixel of `data` that covers it.
pub open spec fn scaled_at(data: Seq<Color>, w: int, scale: int, x: int, y: int) -> Color {
    data[(y / scale) * w + x / scale]
}

/// The pixels, row by row, of the `w`-wide image `data` shown `scale` times
/// larger, `n` of them.
pub open spec fn scaled_pixels(data: Seq<Color>, w: int, scale: int, n: nat) -> Seq<Color> {
    Seq::new(n, |k: int| scaled_at(data, w, scale, k % (w * scale), k / (w * scale)))
}

/// The index that pixel `k` of the image scaled up reads lies in the image.
proof fn lemma_scaled_index(w: int, h: int, s: int, k: int)
    requires
        w > 0,
        h > 0,
        s >= 1,
        0 <= k < (w * s) * (h * s),
    ensures
        0 <= ((k / (w * s)) / s) * w + (k % (w * s)) / s < w * h,
{
    let sw = w * s;
    let sh = h * s;
    assert(sw > 0) by (nonlinear_arith)
        requires
            w > 0,
            s >= 1,
            sw == w * s,
    ;
    let y = k / sw;
    let x = k % sw;
    assert(0 <= x < sw) by (nonlinear_arith)
        requires
            sw > 0,
            x == k % sw,
    ;
    assert(0 <= y < sh) by (nonlinear_arith)
        requires
            sw > 0,
            0 <= k < sw * sh,
            y == k / sw,
    ;
    let ry = y / s;
    let rx = x / s;
    assert(0 <= ry < h) by (nonlinear_arith)
        requires
            s >= 1,
            0 <= y < h * s,
            ry == y / s,
    ;
    assert(0 <= rx < w) by (nonlinear_arith)
        requires
            s >= 1,
            0 <= x < w * s,
            rx == x / s,
    ;
    assert(0 <= ry * w + rx < w * h) by (nonlinear_arith)
        requires
            0 <= ry < h,
            0 <= rx < w,
    ;
}

/// The `width` by `height` image `data` shown `scale` times larger, each
/// pixel becoming a `scale` by `scale` square; nothing for a scale below one.
pub fn scale_image(width: i32, height: i32, data: Vec<Color>, scale: i32) -> (r: Option<Image>)
    requires
        width >= 0,
        height >= 0,
        data@.len() == width * height,
        scale >= 1 ==> scale * scale <= i32::MAX && width * scale <= i32::MAX && height * scale <= i32::MAX
            && (width * scale) * (height * scale) <= i32::MAX + 1,
    ensures
        scale < 1 ==> r is None,
        scale >= 1 ==> r is Some,
        r matches Some(img) ==> scale == 1 ==> img.spec_width() == width && img.spec_height() == height
            && img.pixels() == data@,
        r matches Some(img) ==> scale > 1 ==> img.spec_width() == width * scale && img.spec_height() == height
            * scale && img.pixels() == scaled_pixels(
            data@,
            width as int,
            scale as int,
            ((width * scale) * (height * scale)) as nat,
        ),
{
    if scale < 1 {
        return None;
    }
    if scale == 1 {
        return Some(Image::from_data(width, height, data));
    }
    let sw = width * scale;
    let sh = height * scale;
    let ghost n = (sw as int) * (sh as int);
    if sw == 0 || sh == 0 {
        proof {
            assert(n == 0) by (nonlinear_arith)
                requires
                    sw == 0 || sh == 0,
                    n == sw * sh,
            ;
            assert(scaled_pixels(data@, width as int, scale as int, n as nat) =~= Seq::<Color>::empty());
        }
        return Some(Image::from_data(sw, sh, Vec::new()));
    }
    assert(width > 0 && height > 0) by (nonlinear_arith)
        requires
            width >= 0,
            height >= 0,
            sw == width * scale,
            sh == height * scale,
            sw != 0,
            sh != 0,
    ;
    let len = data.len();
    let total: u64 = (sw as u64) * (sh as u64);
    let mut out: Vec<Color> = Vec::new();
    let mut k: u64 = 0;
    while k < total
        invariant
            total == n,
            n == (width * scale) * (height * scale),
            sw == width * scale,
            width > 0,
            height > 0,
            scale > 1,
            n <= i32::MAX + 1,
            data@.len() == width * height,
            len == data@.len(),
            k <= total,
            out@ == scaled_pixels(data@, width as int, scale as int, n as nat).take(k as int),
        decreases total - k,
    {
        let y = k / (sw as u64);
        let x = k % (sw as u64);
        proof {
            lemma_scaled_index(width as int, height as int, scale as int, k as int);
        }
        let ry = y / (scale as u64);
        let rx = x / (scale as u64);
        proof {
            assert(ry * width + rx < width * height);
            assert(ry * width <= len);
        }
        let i = ry * (width as u64) + rx;
        out.push(data[i as usize]);
        proof {
            assert(out@ =~= scaled_pixels(data@, width as int, scale as int, n as nat).take(k + 1));
        }
        k = k + 1;
    }
    proof {
        assert(out@ =~= scaled_pixels(data@, width as int, scale as int, n as nat));
    }
    Some(Image::from_data(sw, sh, out))
}

} // verus!
