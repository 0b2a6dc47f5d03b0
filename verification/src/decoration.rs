//! The decorations the server draws around a window: its title bar with the
//! title and the maximize and close buttons.
use crate::color::Color;
use crate::image::{apply_region, roi_blend, roi_fits, Image};
use crate::rect::{spec_max, spec_min, Rect, RectView};
use crate::scheme::{placed, OrbitalScheme};
use crate::window::Window;
use crate::window_order::ZEntry;
use orbclient::Renderer;
use vstd::prelude::*;

verus! {

/// One pixel `old` under a fill of `color`, as `orbclient::Renderer::rect`
/// computes it in its blending mode: an opaque colour replaces the pixel;
/// otherwise the red and blue channels, and then the alpha and green
/// channels, are mixed by the alpha of `color`, the colour counting with full
/// alpha.
pub open spec fn fill_pixel(old: u32, color: u32) -> u32 {
    let alpha = (color >> 24u32) & 0xFFu32;
    if alpha >= 255 {
        color
    } else {
        let n_alpha = (255 - alpha) as u32;
        let rb = ((n_alpha * (old & 0x00FF00FFu32) + alpha * (color & 0x00FF00FFu32)) as u32) >> 8u32;
        let ag = (n_alpha * ((old & 0xFF00FF00u32) >> 8u32) + alpha * (0x01000000u32 | ((color
            & 0x0000FF00u32) >> 8u32))) as u32;
        (rb & 0x00FF00FFu32) | (ag & 0xFF00FF00u32)
    }
}

/// The columns and rows `(start_x, start_y, end_x, end_y)` that
/// `orbclient::Renderer::rect` fills on a `w` by `h` image for the rectangle
/// at `(x, y)` of `rw` by `rh`: the rectangle cut to the image.
pub open spec fn fill_bounds(w: int, h: int, x: int, y: int, rw: int, rh: int) -> (int, int, int, int) {
    let start_y = spec_max(0, spec_min(h - 1, y));
    let end_y = spec_max(start_y, spec_min(h, y + rh));
    let start_x = spec_max(0, spec_min(w - 1, x));
    let end_x = spec_max(start_x, spec_min(w, x + rw));
    (start_x, start_y, end_x, end_y)
}

/// The pixels of a `w` by `h` image after the rectangle at `(x, y)` of `rw`
/// by `rh` is filled with `color`.
pub open spec fn filled(data: Seq<Color>, w: int, h: int, x: int, y: int, rw: int, rh: int, color: Color) -> Seq<Color> {
    let (sx, sy, ex, ey) = fill_bounds(w, h, x, y, rw, rh);
    Seq::new(
        data.len(),
        |i: int|
            if sy <= i / w < ey && sx <= i % w < ex {
                Color { data: fill_pixel(data[i].data, color.data) }
            } else {
                data[i]
            },
    )
}

/// Fills the rectangle at `(x, y)` of `rw` by `rh` of the `w` by `h` image
/// `data` with `color`, through `orbclient::Renderer::rect` on an
/// `orbclient::image::ImageRef` over the same pixels. The contract states
/// what that function's source does: the rectangle is cut to the image, and
/// each pixel in it is replaced by an opaque colour or mixed with a
/// translucent one.
#[verifier::external_body]
fn fill_rect(data: &mut [Color], w: u32, h: u32, x: i32, y: i32, rw: u32, rh: u32, color: Color)
    requires
        old(data)@.len() == w * h,
        w <= i32::MAX,
        h <= i32::MAX,
        w * h <= i32::MAX,
        rw <= i32::MAX,
        rh <= i32::MAX,
        x + rw <= i32::MAX,
        y + rh <= i32::MAX,
    ensures
        final(data)@ == filled(old(data)@, w as int, h as int, x as int, y as int, rw as int, rh as int, color),
{
    let mut pixels: Vec<orbclient::Color> = data.iter().map(|c| orbclient::Color { data: c.data }).collect();
    orbclient::image::ImageRef::from_data(w, h, &mut pixels).rect(x, y, rw, rh, orbclient::Color { data: color.data });
    for (d, p) in data.iter_mut().zip(pixels.iter()) {
        d.data = p.data;
    }
}

/// The display `d` (rows `dw` wide, its top left corner at `(dx, dy)`) after
/// the part of the image `img` (rows `iw` wide) placed at `image_rect` that
/// lies inside `rect` is laid over it.
pub open spec fn blend_image(
    d: Seq<Color>,
    dw: int,
    dx: int,
    dy: int,
    rect: RectView,
    image_rect: RectView,
    img: Seq<Color>,
    iw: int,
) -> Seq<Color> {
    let ii = rect.intersection(image_rect);
    if ii.is_empty() {
        d
    } else {
        apply_region(true, d, dw, ii.offset(-dx, -dy), img, iw, ii.offset(-image_rect.x, -image_rect.y))
    }
}

/// A display of `dw` by `dh` pixels at `(dx, dy)` within the bounds of the
/// server, and a part `rect` of it to draw.
pub open spec fn display_holds(len: int, dw: int, dh: int, dx: int, dy: int, rect: RectView) -> bool {
    &&& 0 <= dw <= 0x8000
    &&& 0 <= dh <= 0x8000
    &&& len == dw * dh
    &&& -0x0100_0000 <= dx <= 0x0100_0000
    &&& -0x0100_0000 <= dy <= 0x0100_0000
    &&& rect.wf()
    &&& dx <= rect.x
    &&& rect.x + rect.w <= dx + dw
    &&& dy <= rect.y
    &&& rect.y + rect.h <= dy + dh
}

/// An image that can be placed on a title bar.
pub open spec fn small_image(img: &Image) -> bool {
    &&& img.wf()
    &&& img.spec_width() <= 0x4000
    &&& img.spec_height() <= 0x4000
}

proof fn lemma_rows_fit(y: int, h: int, dh: int, dw: int)
    requires
        0 <= y,
        0 <= h,
        y + h <= dh,
        0 <= dw,
    ensures
        (y + h) * dw <= dh * dw,
{
    assert((y + h) * dw <= dh * dw) by (nonlinear_arith)
        requires
            y + h <= dh,
            0 <= dw,
    ;
}

/// Lays the part of `img` placed at `image_rect` that lies inside `rect`
/// over the display `dst`.
fn blend_image_part(
    dst: &mut [Color],
    dw: i32,
    dh: i32,
    dx: i32,
    dy: i32,
    rect: &Rect,
    image_rect: &Rect,
    img: &Image,
)
    requires
        display_holds(old(dst)@.len() as int, dw as int, dh as int, dx as int, dy as int, rect@),
        small_image(img),
        image_rect@.w <= img.spec_width(),
        image_rect@.h == img.spec_height(),
        -0x4000_0000 <= image_rect@.x <= 0x4000_0000,
        -0x4000_0000 <= image_rect@.y <= 0x4000_0000,
    ensures
        final(dst)@ == blend_image(
            old(dst)@,
            dw as int,
            dx as int,
            dy as int,
            rect@,
            image_rect@,
            img.pixels(),
            img.spec_width(),
        ),
{
    let ii = rect.intersection(image_rect);
    if !ii.is_empty() {
        let target = Rect::new(ii.left() - dx, ii.top() - dy, ii.width(), ii.height());
        let part = ii.offset(-image_rect.left(), -image_rect.top());
        let src = img.roi(&part);
        proof {
            lemma_rows_fit(target@.y, target@.h, dh as int, dw as int);
            lemma_rows_fit(part@.y, part@.h, img.spec_height(), img.spec_width());
            assert(target@ == ii@.offset(-dx as int, -dy as int));
            assert(roi_fits(target@, dw as int, old(dst)@.len() as int));
            assert(roi_fits(part@, img.spec_width(), img.pixels().len() as int));
        }
        roi_blend(dst, dw, &target, &src);
    }
}

impl Window {
    /// The colour of the title bar: highlighted when focused.
    pub open spec fn bar_color(&self, focused: bool) -> Color {
        Color {
            data: if focused {
                self.spec_config().bar_highlight_color.value()
            } else {
                self.spec_config().bar_color.value()
            },
        }
    }

    /// Where the title shows, if there is room for it.
    pub open spec fn title_text_rect(&self, focused: bool) -> Option<RectView> {
        let s = self.scale as int;
        let x = self.x + 6 * s;
        let w = spec_max(x, self.x + self.image_width() - 18 * s) - x;
        let img = if focused {
            self.title_image
        } else {
            self.title_image_unfocused
        };
        if w > 0 {
            Some(
                RectView {
                    x,
                    y: self.spec_title_rect().y + 6 * s,
                    w: spec_min(w, img.spec_width()),
                    h: img.spec_height(),
                },
            )
        } else {
            None
        }
    }

    /// Where the maximize button of `bw` by `bh` shows, if the window can be
    /// resized and there is room for it.
    pub open spec fn max_button_rect(&self, bw: int, bh: int) -> Option<RectView> {
        let s = self.scale as int;
        let x = spec_max(self.x + 6, self.x + self.image_width() - 36 * s);
        if self.resizable && x + 36 * s <= self.x + self.image_width() {
            Some(RectView { x, y: self.spec_title_rect().y + 7 * s, w: bw, h: bh })
        } else {
            None
        }
    }

    /// Where the close button of `bw` by `bh` shows, if the window can be
    /// closed and there is room for it.
    pub open spec fn close_button_rect(&self, bw: int, bh: int) -> Option<RectView> {
        let s = self.scale as int;
        let x = spec_max(self.x + 6 * s, self.x + self.image_width() - 18 * s);
        if !self.unclosable && x + 18 * s <= self.x + self.image_width() {
            Some(RectView { x, y: self.spec_title_rect().y + 7 * s, w: bw, h: bh })
        } else {
            None
        }
    }

    /// The display `d` after the part of the title bar inside `rect` is
    /// drawn: filled with the bar colour, then the title, the maximize button
    /// and the close button laid over it where they show.
    pub open spec fn title_drawn(
        &self,
        d: Seq<Color>,
        dw: int,
        dh: int,
        dx: int,
        dy: int,
        rect: RectView,
        focused: bool,
        max: &Image,
        close: &Image,
    ) -> Seq<Color> {
        let bar = rect.intersection(self.spec_title_rect());
        if bar.is_empty() {
            d
        } else {
            let d1 = filled(d, dw, dh, bar.x - dx, bar.y - dy, bar.w, bar.h, self.bar_color(focused));
            let img = if focused {
                self.title_image
            } else {
                self.title_image_unfocused
            };
            let d2 = match self.title_text_rect(focused) {
                Some(r) => blend_image(d1, dw, dx, dy, rect, r, img.pixels(), img.spec_width()),
                None => d1,
            };
            let d3 = match self.max_button_rect(max.spec_width(), max.spec_height()) {
                Some(r) => blend_image(d2, dw, dx, dy, rect, r, max.pixels(), max.spec_width()),
                None => d2,
            };
            match self.close_button_rect(close.spec_width(), close.spec_height()) {
                Some(r) => blend_image(d3, dw, dx, dy, rect, r, close.pixels(), close.spec_width()),
                None => d3,
            }
        }
    }

    /// Draws the part of the title bar inside `rect` onto a display whose
    /// pixels are `dst`, `dst_w` by `dst_h`, with its top left corner at
    /// `(dst_x, dst_y)`, as `title_drawn` says.
    pub fn draw_title(
        &self,
        dst: &mut [Color],
        dst_w: i32,
        dst_h: i32,
        dst_x: i32,
        dst_y: i32,
        rect: &Rect,
        focused: bool,
        window_max: &Image,
        window_close: &Image,
    )
        requires
            self.wf(),
            placed(self@),
            display_holds(old(dst)@.len() as int, dst_w as int, dst_h as int, dst_x as int, dst_y as int, rect@),
            small_image(&self.title_image),
            small_image(&self.title_image_unfocused),
            small_image(window_max),
            small_image(window_close),
        ensures
            final(dst)@ == self.title_drawn(
                old(dst)@,
                dst_w as int,
                dst_h as int,
                dst_x as int,
                dst_y as int,
                rect@,
                focused,
                window_max,
                window_close,
            ),
    {
        let bar_color = if focused {
            Color::from(self.config.bar_highlight_color)
        } else {
            Color::from(self.config.bar_color)
        };
        let title_rect = self.title_rect();
        let title_intersect = rect.intersection(&title_rect);
        if title_intersect.is_empty() {
            return;
        }
        proof {
            assert(dst_w * dst_h <= 0x8000 * 0x8000) by (nonlinear_arith)
                requires
                    0 <= dst_w <= 0x8000,
                    0 <= dst_h <= 0x8000,
            ;
        }
        fill_rect(
            dst,
            dst_w as u32,
            dst_h as u32,
            title_intersect.left() - dst_x,
            title_intersect.top() - dst_y,
            title_intersect.width() as u32,
            title_intersect.height() as u32,
            bar_color,
        );
        let scale = self.scale;
        let top = title_rect.top();
        let x = self.x + 6 * scale;
        let right = self.x + self.width();
        let end = if x >= right - 18 * scale {
            x
        } else {
            right - 18 * scale
        };
        let w = end - x;
        if w > 0 {
            let title_image = if focused {
                &self.title_image
            } else {
                &self.title_image_unfocused
            };
            let tw = title_image.width();
            let image_rect = Rect::new(x, top + 6 * scale, if w <= tw { w } else { tw }, title_image.height());
            blend_image_part(dst, dst_w, dst_h, dst_x, dst_y, rect, &image_rect, title_image);
        }
        if self.resizable {
            let x = if self.x + 6 >= right - 36 * scale {
                self.x + 6
            } else {
                right - 36 * scale
            };
            if x + 36 * scale <= right {
                let image_rect = Rect::new(x, top + 7 * scale, window_max.width(), window_max.height());
                blend_image_part(dst, dst_w, dst_h, dst_x, dst_y, rect, &image_rect, window_max);
            }
        }
        if !self.unclosable {
            let x = if self.x + 6 * scale >= right - 18 * scale {
                self.x + 6 * scale
            } else {
                right - 18 * scale
            };
            if x + 18 * scale <= right {
                let image_rect = Rect::new(x, top + 7 * scale, window_close.width(), window_close.height());
                blend_image_part(dst, dst_w, dst_h, dst_x, dst_y, rect, &image_rect, window_close);
            }
        }
    }
}

/// Whether `img` can be placed on a title bar.
fn small_image_exec(img: &Image) -> (b: bool)
    ensures
        b == small_image(img),
{
    let (w, h) = (img.width(), img.height());
    if w < 0 || w > 0x4000 || h < 0 || h > 0x4000 {
        return false;
    }
    proof {
        assert(w * h <= 0x4000 * 0x4000) by (nonlinear_arith)
            requires
                0 <= w <= 0x4000,
                0 <= h <= 0x4000,
        ;
    }
    img.data().len() as u64 == w as u64 * h as u64
}

/// The title bar images of `w` can be placed on its title bar.
pub open spec fn titles_fit(w: &Window) -> bool {
    small_image(&w.title_image) && small_image(&w.title_image_unfocused)
}

/// The buttons of the title bars: maximize and close, for the focused
/// window and for the others.
pub struct Buttons {
    pub max: Image,
    pub max_unfocused: Image,
    pub close: Image,
    pub close_unfocused: Image,
}

impl Buttons {
    pub open spec fn fit(&self) -> bool {
        &&& small_image(&self.max)
        &&& small_image(&self.max_unfocused)
        &&& small_image(&self.close)
        &&& small_image(&self.close_unfocused)
    }
}

/// The display `d` after each window of `order` that `windows` holds is
/// drawn inside `rect`, first to last: its title bar (where its title images
/// fit on it) with the buttons for its focus, then its pixels.
pub open spec fn windows_drawn(
    windows: Map<usize, Window>,
    order: Seq<(usize, bool)>,
    d: Seq<Color>,
    dw: int,
    dh: int,
    dx: int,
    dy: int,
    rect: RectView,
    buttons: &Buttons,
) -> Seq<Color>
    decreases order.len(),
{
    if order.len() == 0 {
        d
    } else {
        let before = windows_drawn(windows, order.drop_last(), d, dw, dh, dx, dy, rect, buttons);
        let (id, focused) = order.last();
        if windows.contains_key(id) {
            let w = windows[id];
            let (max, close) = if focused {
                (&buttons.max, &buttons.close)
            } else {
                (&buttons.max_unfocused, &buttons.close_unfocused)
            };
            let titled = if titles_fit(&w) {
                w.title_drawn(before, dw, dh, dx, dy, rect, focused, max, close)
            } else {
                before
            };
            w.drawn(titled, dw, dx, dy, rect)
        } else {
            before
        }
    }
}

/// The windows from back to front, each with whether it is focused.
pub open spec fn back_to_front(zbuffer: Seq<ZEntry>) -> Seq<(usize, bool)> {
    zbuffer.map_values(|e: ZEntry| (e.0, e.2)).reverse()
}

/// Drawing window `w` inside `rect` stays inside the display.
proof fn lemma_draw_fits(w: &Window, len: int, dw: int, dh: int, dx: int, dy: int, rect: RectView)
    requires
        w.wf(),
        placed(w@),
        display_holds(len, dw, dh, dx, dy, rect),
    ensures
        rect.edges_fit(),
        w.spec_rect().edges_fit(),
        !w.spec_rect().intersection(rect).is_empty() ==> {
            &&& roi_fits(w.spec_rect().intersection(rect).offset(-dx, -dy), dw, len)
            &&& roi_fits(w.spec_rect().intersection(rect).offset(-w.x, -w.y), w.image_width(), w.image_pixels().len() as int)
            &&& w.x > i32::MIN
            &&& w.y > i32::MIN
            &&& w.spec_rect().intersection(rect).x - dx <= i32::MAX
            &&& w.spec_rect().intersection(rect).y - dy <= i32::MAX
            &&& w.spec_rect().intersection(rect).x - w.x <= i32::MAX
            &&& w.spec_rect().intersection(rect).y - w.y <= i32::MAX
        },
{
    w.lemma_wf();
    let part = w.spec_rect().intersection(rect);
    if !part.is_empty() {
        let t = part.offset(-dx, -dy);
        let p = part.offset(-w.x, -w.y);
        lemma_rows_fit(t.y, t.h, dh, dw);
        lemma_rows_fit(p.y, p.h, w.image_height(), w.image_width());
    }
}

impl OrbitalScheme {
    /// Draws the part `rect` of a display whose pixels are `dst`, `dst_w` by
    /// `dst_h`, with its top left corner at `(dst_x, dst_y)`: the background
    /// colour, then the windows from back to front, as `windows_drawn` says.
    pub fn draw_frame(
        &self,
        dst: &mut [Color],
        dst_w: i32,
        dst_h: i32,
        dst_x: i32,
        dst_y: i32,
        rect: &Rect,
        buttons: &Buttons,
    )
        requires
            self.wf(),
            display_holds(old(dst)@.len() as int, dst_w as int, dst_h as int, dst_x as int, dst_y as int, rect@),
            buttons.fit(),
        ensures
            final(dst)@ == windows_drawn(
                self.window_map(),
                back_to_front(self@.zbuffer),
                filled(
                    old(dst)@,
                    dst_w as int,
                    dst_h as int,
                    rect@.x - dst_x,
                    rect@.y - dst_y,
                    rect@.w,
                    rect@.h,
                    Color { data: self.spec_config().background_color.value() },
                ),
                dst_w as int,
                dst_h as int,
                dst_x as int,
                dst_y as int,
                rect@,
                buttons,
            ),
    {
        proof {
            assert(dst_w * dst_h <= 0x8000 * 0x8000) by (nonlinear_arith)
                requires
                    0 <= dst_w <= 0x8000,
                    0 <= dst_h <= 0x8000,
            ;
        }
        let background = self.background_color();
        fill_rect(
            dst,
            dst_w as u32,
            dst_h as u32,
            rect.left() - dst_x,
            rect.top() - dst_y,
            rect.width() as u32,
            rect.height() as u32,
            background,
        );
        let ghost d0 = dst@;
        let order = self.windows_back_to_front();
        let n = order.len();
        let mut i: usize = 0;
        proof {
            assert(order@.take(0) =~= Seq::<(usize, bool)>::empty());
        }
        while i < n
            invariant
                self.wf(),
                n == order@.len(),
                order@ == back_to_front(self@.zbuffer),
                i <= n,
                buttons.fit(),
                dst@.len() == d0.len(),
                display_holds(dst@.len() as int, dst_w as int, dst_h as int, dst_x as int, dst_y as int, rect@),
                dst@ == windows_drawn(
                    self.window_map(),
                    order@.take(i as int),
                    d0,
                    dst_w as int,
                    dst_h as int,
                    dst_x as int,
                    dst_y as int,
                    rect@,
                    buttons,
                ),
            decreases n - i,
        {
            let (id, focused) = order[i];
            proof {
                assert(order@.take(i + 1).drop_last() =~= order@.take(i as int));
                assert(order@.take(i + 1).last() == order@[i as int]);
            }
            match self.window(id) {
                Some(w) => {
                    let (max, close) = if focused {
                        (&buttons.max, &buttons.close)
                    } else {
                        (&buttons.max_unfocused, &buttons.close_unfocused)
                    };
                    if small_image_exec(&w.title_image) && small_image_exec(&w.title_image_unfocused) {
                        w.draw_title(dst, dst_w, dst_h, dst_x, dst_y, rect, focused, max, close);
                    }
                    proof {
                        lemma_draw_fits(w, dst@.len() as int, dst_w as int, dst_h as int, dst_x as int, dst_y as int, rect@);
                    }
                    w.draw(dst, dst_w, dst_x, dst_y, rect);
                },
                None => {},
            }
            i = i + 1;
        }
        proof {
            assert(order@.take(n as int) =~= order@);
        }
    }
}

} // verus!
