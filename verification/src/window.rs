use crate::color::Color;
use crate::config::Config;
use crate::event::{Event, MoveEvent, EVENT_MOUSE, EVENT_MOUSE_RELATIVE, EVENT_MOVE, EVENT_RESIZE, EVENT_SCREEN, EVENT_SCROLL};
use crate::image::{aligned_len, apply_region, roi_blend, roi_blit, roi_fits, Image, ImageAligned};
use crate::rect::{spec_max, Rect, RectView};
use crate::scheme::TilePosition;
use crate::window_order::WindowZOrder;
use std::collections::VecDeque;
use std::rc::Rc;
use vstd::prelude::*;
use vstd::string::StrSliceExecFns;
use vstd::string::StringExecFns;

verus! {

pub const ORBITAL_FLAG_ASYNC: char = 'a';
pub const ORBITAL_FLAG_BACK: char = 'b';
pub const ORBITAL_FLAG_FRONT: char = 'f';
pub const ORBITAL_FLAG_HIDDEN: char = 'h';
pub const ORBITAL_FLAG_BORDERLESS: char = 'l';
pub const ORBITAL_FLAG_MAXIMIZED: char = 'm';
pub const ORBITAL_FLAG_FULLSCREEN: char = 'M';
pub const ORBITAL_FLAG_RESIZABLE: char = 'r';
pub const ORBITAL_FLAG_TRANSPARENT: char = 't';
pub const ORBITAL_FLAG_UNCLOSABLE: char = 'u';

/// The height of the title bar, before scaling.
pub const TITLE_HEIGHT: i32 = 28;

/// The size of the memory blocks a window image is shared by.
pub const PAGE_SIZE: usize = 4096;

/// What a window reports of itself to its client.
pub struct Properties<'a> {
    pub flags: String,
    pub x: i32,
    pub y: i32,
    pub width: i32,
    pub height: i32,
    pub title: &'a str,
}

/// Event kinds for which a newer event replaces a queued one of the same kind.
pub open spec fn replaces(code: i64) -> bool {
    code == EVENT_MOUSE || code == EVENT_MOVE || code == EVENT_RESIZE || code == EVENT_SCREEN
}

/// Event kinds for which a newer event is added into a queued one of the same kind.
pub open spec fn accumulates(code: i64) -> bool {
    code == EVENT_MOUSE_RELATIVE || code == EVENT_SCROLL
}

/// The event queue after `e` arrives: it replaces or is added into the last
/// queued event of the same kind where the kind allows that, and is queued
/// otherwise.
pub open spec fn queue_event(q: Seq<Event>, e: Event) -> Seq<Event> {
    if q.len() > 0 && q.last().code == e.code && replaces(e.code) {
        q.drop_last().push(e)
    } else if q.len() > 0 && q.last().code == e.code && accumulates(e.code) {
        q.drop_last().push(Event { code: e.code, a: (q.last().a + e.a) as i64, b: (q.last().b + e.b) as i64 })
    } else {
        q.push(e)
    }
}

/// Adding `e` to the queue overflows nothing.
pub open spec fn queue_event_fits(q: Seq<Event>, e: Event) -> bool {
    q.len() > 0 && q.last().code == e.code && accumulates(e.code) ==> {
        &&& i64::MIN <= q.last().a + e.a <= i64::MAX
        &&& i64::MIN <= q.last().b + e.b <= i64::MAX
    }
}

/// `c` when `b` holds, else nothing.
pub open spec fn flag_if(b: bool, c: char) -> Seq<char> {
    if b {
        seq![c]
    } else {
        seq![]
    }
}

/// The flags of a tiled window: maximized, and fullscreen where it is.
pub open spec fn restore_flags(restore: Option<(Rect, TilePosition)>) -> Seq<char> {
    match restore {
        Some((_, p)) => if p == TilePosition::FullScreen {
            seq!['m', 'M']
        } else {
            seq!['m']
        },
        None => seq![],
    }
}

/// The flag of a layer: back or front; a normal window has none.
pub open spec fn zorder_flags(z: WindowZOrder) -> Seq<char> {
    match z {
        WindowZOrder::Back => seq!['b'],
        WindowZOrder::Normal => seq![],
        WindowZOrder::Front => seq!['f'],
    }
}

/// Appends the one-letter flag `c` to `s` when `b` holds.
fn append_flag(s: &mut String, b: bool, c: char)
    requires
        c == 'a' || c == 'l' || c == 'h' || c == 'm' || c == 'M' || c == 'r' || c == 't' || c
            == 'u' || c == 'b' || c == 'f',
    ensures
        final(s)@ == old(s)@ + flag_if(b, c),
{
    if b {
        let lit = if c == 'a' {
            "a"
        } else if c == 'l' {
            "l"
        } else if c == 'h' {
            "h"
        } else if c == 'm' {
            "m"
        } else if c == 'M' {
            "M"
        } else if c == 'r' {
            "r"
        } else if c == 't' {
            "t"
        } else if c == 'u' {
            "u"
        } else if c == 'b' {
            "b"
        } else {
            "f"
        };
        proof {
            reveal_strlit("a");
            reveal_strlit("l");
            reveal_strlit("h");
            reveal_strlit("m");
            reveal_strlit("M");
            reveal_strlit("r");
            reveal_strlit("t");
            reveal_strlit("u");
            reveal_strlit("b");
            reveal_strlit("f");
        }
        s.append(lit);
        assert(lit@ =~= seq![c]);
    }
}

/// `n` zeroed pixels.
pub open spec fn zeroed(n: int) -> Seq<Color> {
    Seq::new(n as nat, |i: int| Color { data: 0 })
}

/// The part that an image of `old_w` by `old_h` pixels keeps when it is
/// resized to `w` by `h`.
pub open spec fn kept_part(old_w: int, old_h: int, w: int, h: int) -> RectView {
    RectView { x: 0, y: 0, w: w, h: h }.intersection(RectView { x: 0, y: 0, w: old_w, h: old_h })
}

/// A window as a value: its place, flags, pixels and pending events.
pub struct WindowView {
    pub x: int,
    pub y: int,
    pub scale: int,
    pub title: Seq<char>,
    pub asynchronous: bool,
    pub borderless: bool,
    pub hidden: bool,
    pub resizable: bool,
    pub transparent: bool,
    pub unclosable: bool,
    pub zorder: WindowZOrder,
    pub restore: Option<(RectView, TilePosition)>,
    pub width: int,
    pub height: int,
    pub pixels: Seq<Color>,
    pub events: Seq<Event>,
    pub notified_read: bool,
    pub clipboard_seek: int,
    pub mouse_cursor: bool,
    pub mouse_grab: bool,
    pub mouse_relative: bool,
    pub maps: int,
}

impl WindowView {
    /// The area the window covers: nothing at its origin while hidden.
    pub open spec fn rect(self) -> RectView {
        if self.hidden {
            RectView { x: self.x, y: self.y, w: 0, h: 0 }
        } else {
            RectView { x: self.x, y: self.y, w: self.width, h: self.height }
        }
    }

    /// The title bar above the window; nothing while the window is hidden or
    /// has no border.
    pub open spec fn title_rect(self) -> RectView {
        if self.borderless || self.hidden {
            RectView { x: self.x, y: self.y, w: 0, h: 0 }
        } else {
            RectView {
                x: self.x,
                y: self.y - TITLE_HEIGHT * self.scale,
                w: self.width,
                h: TITLE_HEIGHT * self.scale,
            }
        }
    }

    /// The square at the corner of the title bar that placement keeps apart.
    pub open spec fn cascade_rect(self) -> RectView {
        RectView { x: self.title_rect().x, y: self.title_rect().y, w: 32, h: 32 }
    }

    pub open spec fn left_border_rect(self) -> RectView {
        if self.resizable {
            RectView { x: self.x - 8 * self.scale, y: self.y, w: 8 * self.scale, h: self.height }
        } else {
            RectView { x: -1, y: -1, w: 0, h: 0 }
        }
    }

    pub open spec fn right_border_rect(self) -> RectView {
        if self.resizable {
            RectView { x: self.x + self.width, y: self.y, w: 8 * self.scale, h: self.height }
        } else {
            RectView { x: -1, y: -1, w: 0, h: 0 }
        }
    }

    pub open spec fn bottom_border_rect(self) -> RectView {
        if self.resizable {
            RectView { x: self.x, y: self.y + self.height, w: self.width, h: 8 * self.scale }
        } else {
            RectView { x: -1, y: -1, w: 0, h: 0 }
        }
    }

    /// The point lies on the maximize button.
    pub open spec fn max_contains(self, px: int, py: int) -> bool {
        &&& !self.borderless
        &&& px >= spec_max(self.x + 6 * self.scale, self.x + self.width - 36 * self.scale)
        &&& py >= self.y - TITLE_HEIGHT * self.scale
        &&& px < self.x + self.width - 18 * self.scale
        &&& py < self.y
    }

    /// The point lies on the close button.
    pub open spec fn close_contains(self, px: int, py: int) -> bool {
        &&& !self.borderless
        &&& px >= spec_max(self.x + 6 * self.scale, self.x + self.width - 18 * self.scale)
        &&& py >= self.y - TITLE_HEIGHT * self.scale
        &&& px < self.x + self.width
        &&& py < self.y
    }
}

/// The window after its flag `flag` is set to `value`; other letters change
/// nothing.
pub open spec fn flag_set(w: WindowView, flag: char, value: bool) -> WindowView {
    if flag == ORBITAL_FLAG_ASYNC {
        WindowView { asynchronous: value, ..w }
    } else if flag == ORBITAL_FLAG_BACK {
        WindowView { zorder: if value { WindowZOrder::Back } else { WindowZOrder::Normal }, ..w }
    } else if flag == ORBITAL_FLAG_FRONT {
        WindowView { zorder: if value { WindowZOrder::Front } else { WindowZOrder::Normal }, ..w }
    } else if flag == ORBITAL_FLAG_HIDDEN {
        WindowView { hidden: value, ..w }
    } else if flag == ORBITAL_FLAG_BORDERLESS {
        WindowView { borderless: value, ..w }
    } else if flag == ORBITAL_FLAG_RESIZABLE {
        WindowView { resizable: value, ..w }
    } else if flag == ORBITAL_FLAG_TRANSPARENT {
        WindowView { transparent: value, ..w }
    } else if flag == ORBITAL_FLAG_UNCLOSABLE {
        WindowView { unclosable: value, ..w }
    } else {
        w
    }
}

impl WindowView {
    /// The one-letter flags a window reports: asynchronous, borderless,
    /// hidden, maximized (and full screen), resizable, transparent,
    /// unclosable, and back or front.
    pub open spec fn flags(self) -> Seq<char> {
        flag_if(self.asynchronous, 'a') + flag_if(self.borderless, 'l') + flag_if(self.hidden, 'h')
            + match self.restore {
            Some((_, p)) => if p == TilePosition::FullScreen {
                seq!['m', 'M']
            } else {
                seq!['m']
            },
            None => seq![],
        } + flag_if(self.resizable, 'r') + flag_if(self.transparent, 't') + flag_if(self.unclosable, 'u')
            + zorder_flags(self.zorder)
    }
}

impl View for Window {
    type V = WindowView;

    open spec fn view(&self) -> WindowView {
        WindowView {
            x: self.x as int,
            y: self.y as int,
            scale: self.scale as int,
            title: self.title@,
            asynchronous: self.asynchronous,
            borderless: self.borderless,
            hidden: self.hidden,
            resizable: self.resizable,
            transparent: self.transparent,
            unclosable: self.unclosable,
            zorder: self.zorder,
            restore: match self.restore {
                Some((r, p)) => Some((r@, p)),
                None => None,
            },
            width: self.image_width(),
            height: self.image_height(),
            pixels: self.image_pixels(),
            events: self.events@,
            notified_read: self.notified_read,
            clipboard_seek: self.clipboard_seek as int,
            mouse_cursor: self.mouse_cursor,
            mouse_grab: self.mouse_grab,
            mouse_relative: self.mouse_relative,
            maps: self.maps as int,
        }
    }
}

/// A client window: its place, its flags, its pixels and its event queue.
pub struct Window {
    pub x: i32,
    pub y: i32,
    pub scale: i32,
    pub title: String,
    pub asynchronous: bool,
    pub borderless: bool,
    pub hidden: bool,
    pub resizable: bool,
    pub transparent: bool,
    pub unclosable: bool,
    pub zorder: WindowZOrder,
    pub restore: Option<(Rect, TilePosition)>,
    pub image: ImageAligned,
    pub title_image: Image,
    pub title_image_unfocused: Image,
    pub events: VecDeque<Event>,
    pub notified_read: bool,
    pub clipboard_seek: usize,
    pub mouse_cursor: bool,
    pub mouse_grab: bool,
    pub mouse_relative: bool,
    pub maps: usize,
    pub config: Rc<Config>,
}

impl Window {
    /// The window image holds all its pixels.
    pub open spec fn wf(&self) -> bool {
        self.image.wf()
    }

    pub open spec fn image_width(&self) -> int {
        self.image.spec_width()
    }

    pub open spec fn image_height(&self) -> int {
        self.image.spec_height()
    }

    pub open spec fn image_pixels(&self) -> Seq<Color> {
        self.image.pixels()
    }

    pub open spec fn spec_config(&self) -> Config {
        *self.config
    }

    /// What `wf` means.
    pub proof fn lemma_wf(&self)
        requires
            self.wf(),
        ensures
            self.image_width() >= 0,
            self.image_height() >= 0,
            self.image_pixels().len() >= self.image_width() * self.image_height(),
            self.image_width() <= i32::MAX,
            self.image_height() <= i32::MAX,
    {
        self.image.lemma_wf();
    }

    /// The area the window covers: nothing at its origin while hidden.
    pub open spec fn spec_rect(&self) -> RectView {
        if self.hidden {
            RectView { x: self.x as int, y: self.y as int, w: 0, h: 0 }
        } else {
            RectView {
                x: self.x as int,
                y: self.y as int,
                w: self.image_width(),
                h: self.image_height(),
            }
        }
    }

    /// The height of the title bar.
    pub open spec fn title_height(&self) -> int {
        TITLE_HEIGHT * self.scale
    }

    /// The title bar above the window; nothing at its origin while the window
    /// is hidden or has no border.
    pub open spec fn spec_title_rect(&self) -> RectView {
        if self.borderless || self.hidden {
            RectView { x: self.x as int, y: self.y as int, w: 0, h: 0 }
        } else {
            RectView {
                x: self.x as int,
                y: self.y - self.title_height(),
                w: self.image_width(),
                h: self.title_height(),
            }
        }
    }

    /// The title bar can be computed without overflow.
    pub open spec fn title_fits(&self) -> bool {
        self.borderless || self.hidden || (0 <= self.title_height() <= i32::MAX && self.y
            - self.title_height() >= i32::MIN)
    }

    /// The resize borders can be computed without overflow.
    pub open spec fn borders_fit(&self) -> bool {
        !self.resizable || {
            &&& 0 <= 8 * self.scale <= i32::MAX
            &&& self.y + self.image_height() <= i32::MAX
            &&& self.x + self.image_width() <= i32::MAX
            &&& self.x - 8 * self.scale >= i32::MIN
        }
    }

    /// The title bar buttons can be located without overflow.
    pub open spec fn buttons_fit(&self) -> bool {
        self.borderless || {
            &&& 0 <= 36 * self.scale <= i32::MAX
            &&& self.x + 6 * self.scale <= i32::MAX
            &&& self.x + self.image_width() <= i32::MAX
            &&& self.x + self.image_width() - 36 * self.scale >= i32::MIN
            &&& self.y - self.title_height() >= i32::MIN
        }
    }

    /// The area of a border strip for a window that cannot be resized.
    pub open spec fn no_border() -> RectView {
        RectView { x: -1, y: -1, w: 0, h: 0 }
    }

    pub open spec fn spec_bottom_border_rect(&self) -> RectView {
        if self.resizable {
            RectView {
                x: self.x as int,
                y: self.y + self.image_height(),
                w: self.image_width(),
                h: 8 * self.scale,
            }
        } else {
            Self::no_border()
        }
    }

    pub open spec fn spec_bottom_left_border_rect(&self) -> RectView {
        if self.resizable {
            RectView {
                x: self.x - 8 * self.scale,
                y: self.y + self.image_height(),
                w: 8 * self.scale,
                h: 8 * self.scale,
            }
        } else {
            Self::no_border()
        }
    }

    pub open spec fn spec_bottom_right_border_rect(&self) -> RectView {
        if self.resizable {
            RectView {
                x: self.x + self.image_width(),
                y: self.y + self.image_height(),
                w: 8 * self.scale,
                h: 8 * self.scale,
            }
        } else {
            Self::no_border()
        }
    }

    pub open spec fn spec_left_border_rect(&self) -> RectView {
        if self.resizable {
            RectView {
                x: self.x - 8 * self.scale,
                y: self.y as int,
                w: 8 * self.scale,
                h: self.image_height(),
            }
        } else {
            Self::no_border()
        }
    }

    pub open spec fn spec_right_border_rect(&self) -> RectView {
        if self.resizable {
            RectView {
                x: self.x + self.image_width(),
                y: self.y as int,
                w: 8 * self.scale,
                h: self.image_height(),
            }
        } else {
            Self::no_border()
        }
    }

    /// The point lies on the maximize button of the title bar.
    pub open spec fn spec_max_contains(&self, px: int, py: int) -> bool {
        &&& !self.borderless
        &&& px >= spec_max(self.x + 6 * self.scale, self.x + self.image_width() - 36 * self.scale)
        &&& py >= self.y - self.title_height()
        &&& px < self.x + self.image_width() - 18 * self.scale
        &&& py < self.y
    }

    /// The point lies on the close button of the title bar.
    pub open spec fn spec_close_contains(&self, px: int, py: int) -> bool {
        &&& !self.borderless
        &&& px >= spec_max(self.x + 6 * self.scale, self.x + self.image_width() - 18 * self.scale)
        &&& py >= self.y - self.title_height()
        &&& px < self.x + self.image_width()
        &&& py < self.y
    }

    /// A visible, undecorated window at `(x, y)` with a zeroed `w` by `h` image.
    pub fn new(x: i32, y: i32, w: i32, h: i32, scale: i32, config: Rc<Config>) -> (r: Window)
        requires
            w >= 0,
            h >= 0,
            w * h * 4 + PAGE_SIZE - 1 <= usize::MAX,
        ensures
            r.wf(),
            r.x == x,
            r.y == y,
            r.scale == scale,
            r.title@ == Seq::<char>::empty(),
            !r.asynchronous,
            !r.borderless,
            !r.hidden,
            !r.resizable,
            !r.transparent,
            !r.unclosable,
            r.zorder == WindowZOrder::Normal,
            r.restore.is_none(),
            r.image_width() == w,
            r.image_height() == h,
            r.image_pixels().len() == aligned_len(w as int, h as int, PAGE_SIZE as int),
            forall|i: int| 0 <= i < r.image_pixels().len() ==> #[trigger] r.image_pixels()[i].data == 0,
            r.events@ == Seq::<Event>::empty(),
            !r.notified_read,
            r.clipboard_seek == 0,
            r.mouse_cursor,
            !r.mouse_grab,
            !r.mouse_relative,
            r.maps == 0,
            r.spec_config() == *config,
    {
        Window {
            x,
            y,
            scale,
            title: String::new(),
            asynchronous: false,
            borderless: false,
            hidden: false,
            resizable: false,
            transparent: false,
            unclosable: false,
            zorder: WindowZOrder::Normal,
            restore: None,
            image: ImageAligned::new(w, h, PAGE_SIZE),
            title_image: Image::new(0, 0),
            title_image_unfocused: Image::new(0, 0),
            events: VecDeque::new(),
            notified_read: false,
            clipboard_seek: 0,
            mouse_cursor: true,
            mouse_grab: false,
            mouse_relative: false,
            maps: 0,
            config,
        }
    }

    pub fn width(&self) -> (w: i32)
        ensures
            w == self.image_width(),
            self.wf() ==> w >= 0,
    {
        proof {
            if self.wf() {
                self.image.lemma_wf();
            }
        }
        self.image.width()
    }

    pub fn height(&self) -> (h: i32)
        ensures
            h == self.image_height(),
            self.wf() ==> h >= 0,
    {
        proof {
            if self.wf() {
                self.image.lemma_wf();
            }
        }
        self.image.height()
    }

    /// The area the window covers.
    pub fn rect(&self) -> (r: Rect)
        requires
            self.wf(),
        ensures
            r@ == self.spec_rect(),
    {
        if self.hidden {
            Rect::new(self.x, self.y, 0, 0)
        } else {
            Rect::new(self.x, self.y, self.width(), self.height())
        }
    }

    /// The title bar of the window.
    pub fn title_rect(&self) -> (r: Rect)
        requires
            self.wf(),
            self.title_fits(),
        ensures
            r@ == self.spec_title_rect(),
    {
        if self.borderless || self.hidden {
            Rect::new(self.x, self.y, 0, 0)
        } else {
            Rect::new(
                self.x,
                self.y - TITLE_HEIGHT * self.scale,
                self.width(),
                TITLE_HEIGHT * self.scale,
            )
        }
    }

    /// The area used to cascade new windows: 32 by 32 at the top left of the
    /// title bar.
    pub fn cascade_rect(&self) -> (r: Rect)
        requires
            self.wf(),
            self.title_fits(),
        ensures
            r@ == (RectView {
                x: self.spec_title_rect().x,
                y: self.spec_title_rect().y,
                w: 32,
                h: 32,
            }),
    {
        let title_rect = self.title_rect();
        Rect::new(title_rect.left(), title_rect.top(), 32, 32)
    }

    pub fn bottom_border_rect(&self) -> (r: Rect)
        requires
            self.wf(),
            self.borders_fit(),
        ensures
            r@ == self.spec_bottom_border_rect(),
    {
        if self.resizable {
            Rect::new(self.x, self.y + self.height(), self.width(), 8 * self.scale)
        } else {
            Rect::new(-1, -1, 0, 0)
        }
    }

    pub fn bottom_left_border_rect(&self) -> (r: Rect)
        requires
            self.wf(),
            self.borders_fit(),
        ensures
            r@ == self.spec_bottom_left_border_rect(),
    {
        if self.resizable {
            Rect::new(
                self.x - 8 * self.scale,
                self.y + self.height(),
                8 * self.scale,
                8 * self.scale,
            )
        } else {
            Rect::new(-1, -1, 0, 0)
        }
    }

    pub fn bottom_right_border_rect(&self) -> (r: Rect)
        requires
            self.wf(),
            self.borders_fit(),
        ensures
            r@ == self.spec_bottom_right_border_rect(),
    {
        if self.resizable {
            Rect::new(
                self.x + self.width(),
                self.y + self.height(),
                8 * self.scale,
                8 * self.scale,
            )
        } else {
            Rect::new(-1, -1, 0, 0)
        }
    }

    pub fn left_border_rect(&self) -> (r: Rect)
        requires
            self.wf(),
            self.borders_fit(),
        ensures
            r@ == self.spec_left_border_rect(),
    {
        if self.resizable {
            Rect::new(self.x - 8 * self.scale, self.y, 8 * self.scale, self.height())
        } else {
            Rect::new(-1, -1, 0, 0)
        }
    }

    pub fn right_border_rect(&self) -> (r: Rect)
        requires
            self.wf(),
            self.borders_fit(),
        ensures
            r@ == self.spec_right_border_rect(),
    {
        if self.resizable {
            Rect::new(self.x + self.width(), self.y, 8 * self.scale, self.height())
        } else {
            Rect::new(-1, -1, 0, 0)
        }
    }

    /// Whether `(x, y)` lies on the maximize button.
    pub fn max_contains(&self, x: i32, y: i32) -> (b: bool)
        requires
            self.wf(),
            self.buttons_fit(),
        ensures
            b == self.spec_max_contains(x as int, y as int),
    {
        if self.borderless {
            return false;
        }
        let a = self.x + 6 * self.scale;
        let b = self.x + self.width() - 36 * self.scale;
        let left = if a >= b {
            a
        } else {
            b
        };
        x >= left && y >= self.y - TITLE_HEIGHT * self.scale && x < self.x + self.width() - 18
            * self.scale && y < self.y
    }

    /// Whether `(x, y)` lies on the close button.
    pub fn close_contains(&self, x: i32, y: i32) -> (b: bool)
        requires
            self.wf(),
            self.buttons_fit(),
        ensures
            b == self.spec_close_contains(x as int, y as int),
    {
        if self.borderless {
            return false;
        }
        let a = self.x + 6 * self.scale;
        let b = self.x + self.width() - 18 * self.scale;
        let left = if a >= b {
            a
        } else {
            b
        };
        x >= left && y >= self.y - TITLE_HEIGHT * self.scale && x < self.x + self.width() && y
            < self.y
    }

    /// Queues an event for the client, replacing or adding into the last
    /// queued event of the same kind where that keeps the meaning and lowers
    /// the latency (pointer positions, moves, sizes; relative motion, scrolling).
    #[verifier::rlimit(40)]
    pub fn event(&mut self, event: Event)
        requires
            queue_event_fits(old(self).events@, event),
        ensures
            final(self).events@ == queue_event(old(self).events@, event),
            final(self)@ == (WindowView { events: queue_event(old(self)@.events, event), ..old(self)@ }),
            final(self).wf() == old(self).wf(),
            final(self).image_width() == old(self).image_width(),
            final(self).image_height() == old(self).image_height(),
            final(self).image_pixels() == old(self).image_pixels(),
    {
        let len = self.events.len();
        if len > 0 {
            let last = self.events[len - 1];
            if last.code == event.code {
                let code = event.code;
                if code == EVENT_MOUSE || code == EVENT_MOVE || code == EVENT_RESIZE || code
                    == EVENT_SCREEN {
                    let _ = self.events.pop_back();
                    self.events.push_back(event);
                    return ;
                }
                if code == EVENT_MOUSE_RELATIVE || code == EVENT_SCROLL {
                    let _ = self.events.pop_back();
                    self.events.push_back(
                        Event { code, a: last.a + event.a, b: last.b + event.b },
                    );
                    return ;
                }
            }
        }
        self.events.push_back(event);
    }

    /// Moves queued events into `buf`, oldest first, as many as fit; returns
    /// how many were moved.
    pub fn read(&mut self, buf: &mut [Event]) -> (n: usize)
        ensures
            n == if old(self).events@.len() < old(buf)@.len() {
                old(self).events@.len()
            } else {
                old(buf)@.len()
            },
            final(buf)@ == old(self).events@.take(n as int) + old(buf)@.skip(n as int),
            final(self).events@ == old(self).events@.skip(n as int),
            final(self)@ == (WindowView { events: old(self)@.events.skip(n as int), ..old(self)@ }),
            final(self).wf() == old(self).wf(),
            final(self).image_pixels() == old(self).image_pixels(),
    {
        let ghost q = self.events@;
        let ghost b0 = buf@;
        let len = buf.len();
        let mut i: usize = 0;
        while i < len
            invariant
                len == b0.len(),
                q == old(self).events@,
                b0 == old(buf)@,
                i <= len,
                i <= q.len(),
                buf@.len() == len,
                buf@ == q.take(i as int) + b0.skip(i as int),
                self.events@ == q.skip(i as int),
                self@ == (WindowView { events: self.events@, ..old(self)@ }),
                self.wf() == old(self).wf(),
                self.image_pixels() == old(self).image_pixels(),
            decreases len - i,
        {
            match self.events.pop_front() {
                Some(item) => {
                    buf[i] = item;
                    proof {
                        assert(q.skip(i as int).skip(1) =~= q.skip(i + 1));
                        assert(buf@ =~= q.take(i + 1) + b0.skip(i + 1));
                    }
                },
                None => {
                    proof {
                        assert(q.skip(i as int).len() == 0);
                        assert(q.len() == i);
                        assert(q.take(i as int) =~= q);
                    }
                    return i;
                },
            }
            i = i + 1;
        }
        len
    }

    /// The flags a client sees in the window path, in this order: async,
    /// borderless, hidden, maximized (and fullscreen), resizable,
    /// transparent, unclosable, and the back or front layer.
    pub open spec fn flag_chars(&self) -> Seq<char> {
        flag_if(self.asynchronous, 'a') + flag_if(self.borderless, 'l') + flag_if(self.hidden, 'h')
            + restore_flags(self.restore) + flag_if(self.resizable, 'r') + flag_if(
            self.transparent,
            't',
        ) + flag_if(self.unclosable, 'u') + zorder_flags(self.zorder)
    }

    /// Reports the flags, place, size and title of the window.
    pub fn properties(&self) -> (p: Properties<'_>)
        ensures
            p.flags@ == self.flag_chars(),
            p.flags@ == self@.flags(),
            p.x == self.x,
            p.y == self.y,
            p.width == self.image_width(),
            p.height == self.image_height(),
            p.title@ == self.title@,
    {
        let flags = self.flags_string();
        Properties {
            flags,
            x: self.x,
            y: self.y,
            width: self.width(),
            height: self.height(),
            title: self.title.as_str(),
        }
    }

    fn flags_string(&self) -> (s: String)
        ensures
            s@ == self.flag_chars(),
    {
        let mut flags = String::new();
        append_flag(&mut flags, self.asynchronous, 'a');
        append_flag(&mut flags, self.borderless, 'l');
        append_flag(&mut flags, self.hidden, 'h');
        let ghost s3 = flags@;
        match &self.restore {
            Some((_, position)) => {
                append_flag(&mut flags, true, 'm');
                append_flag(&mut flags, *position == TilePosition::FullScreen, 'M');
            },
            None => {},
        }
        assert(flags@ =~= s3 + restore_flags(self.restore));
        append_flag(&mut flags, self.resizable, 'r');
        append_flag(&mut flags, self.transparent, 't');
        append_flag(&mut flags, self.unclosable, 'u');
        let ghost s7 = flags@;
        append_flag(&mut flags, self.zorder == WindowZOrder::Back, 'b');
        append_flag(&mut flags, self.zorder == WindowZOrder::Front, 'f');
        assert(flags@ =~= s7 + zorder_flags(self.zorder));
        assert(flags@ =~= self.flag_chars());
        flags
    }

    /// The pixels of the window, for the client to draw into.
    pub fn map(&mut self) -> (d: &mut [Color])
        ensures
            d@ == old(self).image_pixels(),
            final(self).image_pixels() == final(d)@,
            final(self)@ == (WindowView { pixels: final(d)@, ..old(self)@ }),
            final(self).image_width() == old(self).image_width(),
            final(self).image_height() == old(self).image_height(),
            old(self).wf() && final(d)@.len() == old(self).image_pixels().len() ==> final(self).wf(),
    {
        self.image.data_mut()
    }

    /// Gives the window a new zeroed `w` by `h` image that keeps the pixels
    /// of the part the old and the new size have in common.
    pub fn set_size(&mut self, w: i32, h: i32)
        requires
            old(self).wf(),
            w >= 0,
            h >= 0,
            w * h * 4 + PAGE_SIZE - 1 <= usize::MAX,
        ensures
            final(self).wf(),
            final(self).image_width() == w,
            final(self).image_height() == h,
            final(self)@ == (WindowView { width: w as int, height: h as int, pixels: final(self).image_pixels(), ..old(self)@ }),
            final(self).image_pixels() == apply_region(
                false,
                zeroed(aligned_len(w as int, h as int, PAGE_SIZE as int)),
                w as int,
                kept_part(old(self).image_width(), old(self).image_height(), w as int, h as int),
                old(self).image_pixels(),
                old(self).image_width(),
                kept_part(old(self).image_width(), old(self).image_height(), w as int, h as int),
            ),
            final(self).x == old(self).x,
            final(self).y == old(self).y,
            final(self).scale == old(self).scale,
            final(self).title == old(self).title,
            final(self).asynchronous == old(self).asynchronous,
            final(self).borderless == old(self).borderless,
            final(self).hidden == old(self).hidden,
            final(self).resizable == old(self).resizable,
            final(self).transparent == old(self).transparent,
            final(self).unclosable == old(self).unclosable,
            final(self).zorder == old(self).zorder,
            final(self).restore == old(self).restore,
            final(self).events == old(self).events,
            final(self).maps == old(self).maps,
    {
        proof {
            self.image.lemma_wf();
        }
        let mut new_image = ImageAligned::new(w, h, PAGE_SIZE);
        let new_rect = Rect::new(0, 0, w, h);
        let rect = Rect::new(0, 0, self.image.width(), self.image.height());
        let intersect = new_rect.intersection(&rect);
        let ghost kept = kept_part(self.image_width(), self.image_height(), w as int, h as int);
        let ghost z = zeroed(aligned_len(w as int, h as int, PAGE_SIZE as int));
        assert(intersect@ == kept);
        assert(new_image.pixels() =~= z) by {
            assert forall|i: int| 0 <= i < z.len() implies new_image.pixels()[i] == z[i] by {
                assert(new_image.pixels()[i].data == 0);
            }
        }
        if !intersect.is_empty() {
            proof {
                let (kh, kw, iw, ih) = (kept.h, kept.w, self.image_width(), self.image_height());
                assert(kh * w <= h * w) by (nonlinear_arith)
                    requires
                        0 <= kh <= h,
                        w >= 0,
                ;
                assert(kh * iw <= ih * iw) by (nonlinear_arith)
                    requires
                        0 <= kh <= ih,
                        iw >= 0,
                ;
                assert(h * w == w * h) by (nonlinear_arith);
                assert(ih * iw == iw * ih) by (nonlinear_arith);
            }
            let src = self.image.roi(&intersect);
            new_image.blit_roi(&intersect, &src);
        } else {
            assert(apply_region(false, z, w as int, kept, self.image_pixels(), self.image_width(), kept) =~= z);
        }
        self.image = new_image;
    }

    /// Draws the part of the window inside `rect` onto a display whose pixels
    /// are `dst`, whose rows are `dst_w` wide and whose top left corner is at
    /// `(dst_x, dst_y)`: laid over it when the window is transparent, copied
    /// otherwise.
    /// The display `d` (rows `dw` wide, its top left corner at `(dx, dy)`)
    /// after the part of the window inside `rect` is drawn on it.
    pub open spec fn drawn(&self, d: Seq<Color>, dw: int, dx: int, dy: int, rect: RectView) -> Seq<Color> {
        let part = self.spec_rect().intersection(rect);
        if part.is_empty() {
            d
        } else {
            apply_region(
                self.transparent,
                d,
                dw,
                part.offset(-dx, -dy),
                self.image_pixels(),
                self.image_width(),
                part.offset(-self.x, -self.y),
            )
        }
    }

    pub fn draw(&self, dst: &mut [Color], dst_w: i32, dst_x: i32, dst_y: i32, rect: &Rect)
        requires
            self.wf(),
            rect@.edges_fit(),
            self.spec_rect().edges_fit(),
            !self.spec_rect().intersection(rect@).is_empty() ==> {
                &&& roi_fits(
                    self.spec_rect().intersection(rect@).offset(-dst_x, -dst_y),
                    dst_w as int,
                    old(dst)@.len() as int,
                )
                &&& roi_fits(
                    self.spec_rect().intersection(rect@).offset(-self.x, -self.y),
                    self.image_width(),
                    self.image_pixels().len() as int,
                )
                &&& self.x > i32::MIN
                &&& self.y > i32::MIN
                &&& self.spec_rect().intersection(rect@).x - dst_x <= i32::MAX
                &&& self.spec_rect().intersection(rect@).y - dst_y <= i32::MAX
                &&& self.spec_rect().intersection(rect@).x - self.x <= i32::MAX
                &&& self.spec_rect().intersection(rect@).y - self.y <= i32::MAX
            },
        ensures
            final(dst)@ == self.drawn(old(dst)@, dst_w as int, dst_x as int, dst_y as int, rect@),
    {
        let self_rect = self.rect();
        let intersect = self_rect.intersection(rect);
        if !intersect.is_empty() {
            let target = Rect::new(
                intersect.left() - dst_x,
                intersect.top() - dst_y,
                intersect.width(),
                intersect.height(),
            );
            let part = intersect.offset(-self_rect.left(), -self_rect.top());
            let src = self.image.roi(&part);
            if self.transparent {
                roi_blend(dst, dst_w, &target, &src);
            } else {
                roi_blit(dst, dst_w, &target, &src);
            }
        }
    }

    /// Sets or clears the flag named by `flag`; unknown flags change nothing.
    /// The height of the title bar: none while the window is hidden or has
    /// no border.
    pub fn title_bar_height(&self) -> (h: i32)
        requires
            0 <= TITLE_HEIGHT * self.scale <= i32::MAX,
        ensures
            h == self@.title_rect().h,
    {
        if self.borderless || self.hidden {
            0
        } else {
            TITLE_HEIGHT * self.scale
        }
    }

    /// The window becomes asynchronous, or not.
    pub fn set_asynchronous(&mut self, value: bool)
        ensures
            final(self)@ == (WindowView { asynchronous: value, ..old(self)@ }),
            final(self).wf() == old(self).wf(),
    {
        self.asynchronous = value;
    }

    /// The window shows the pointer over it, or not.
    pub fn set_mouse_cursor(&mut self, value: bool)
        ensures
            final(self)@ == (WindowView { mouse_cursor: value, ..old(self)@ }),
            final(self).wf() == old(self).wf(),
    {
        self.mouse_cursor = value;
    }

    /// The window grabs the pointer, or not.
    pub fn set_mouse_grab(&mut self, value: bool)
        ensures
            final(self)@ == (WindowView { mouse_grab: value, ..old(self)@ }),
            final(self).wf() == old(self).wf(),
    {
        self.mouse_grab = value;
    }

    /// The window takes relative pointer moves, or not.
    pub fn set_mouse_relative(&mut self, value: bool)
        ensures
            final(self)@ == (WindowView { mouse_relative: value, ..old(self)@ }),
            final(self).wf() == old(self).wf(),
    {
        self.mouse_relative = value;
    }

    /// The window has been told that events wait, or not.
    pub fn set_notified_read(&mut self, value: bool)
        ensures
            final(self)@ == (WindowView { notified_read: value, ..old(self)@ }),
            final(self).wf() == old(self).wf(),
    {
        self.notified_read = value;
    }

    /// The number of mappings of the window's pixels.
    pub fn set_maps(&mut self, maps: usize)
        ensures
            final(self)@ == (WindowView { maps: maps as int, ..old(self)@ }),
            final(self).wf() == old(self).wf(),
    {
        self.maps = maps;
    }

    /// The window is placed at `(x, y)`.
    pub fn set_position(&mut self, x: i32, y: i32)
        ensures
            final(self)@ == (WindowView { x: x as int, y: y as int, ..old(self)@ }),
            final(self).wf() == old(self).wf(),
    {
        self.x = x;
        self.y = y;
    }

    /// The window takes the title `title`.
    pub fn set_title(&mut self, title: String)
        ensures
            final(self)@ == (WindowView { title: title@, ..old(self)@ }),
            final(self).wf() == old(self).wf(),
    {
        self.title = title;
    }

    /// The window remembers the area to go back to when it is untiled, or
    /// forgets it.
    pub fn set_restore(&mut self, restore: Option<(Rect, TilePosition)>)
        ensures
            final(self)@ == (WindowView {
                restore: match restore {
                    Some((r, p)) => Some((r@, p)),
                    None => None,
                },
                ..old(self)@
            }),
            final(self).wf() == old(self).wf(),
    {
        self.restore = restore;
    }

    /// Whether `event` can join the queue without overflow.
    pub fn event_fits(&self, event: Event) -> (b: bool)
        ensures
            b == queue_event_fits(self@.events, event),
    {
        let len = self.events.len();
        if len == 0 {
            return true;
        }
        let last = self.events[len - 1];
        if last.code != event.code || !(event.code == EVENT_MOUSE_RELATIVE || event.code == EVENT_SCROLL) {
            return true;
        }
        let a = last.a.checked_add(event.a);
        let b = last.b.checked_add(event.b);
        a.is_some() && b.is_some()
    }

    /// Moves the window to `(x, y)` and tells it so.
    pub fn move_to(&mut self, x: i32, y: i32)
        ensures
            final(self)@ == (WindowView {
                x: x as int,
                y: y as int,
                events: queue_event(old(self)@.events, Event { code: EVENT_MOVE, a: x as i64, b: y as i64 }),
                ..old(self)@
            }),
            final(self).wf() == old(self).wf(),
    {
        self.x = x;
        self.y = y;
        self.event(MoveEvent { x, y }.to_event());
    }

    #[verifier::rlimit(40)]
    pub fn set_flag(&mut self, flag: char, value: bool)
        ensures
            final(self)@ == flag_set(old(self)@, flag, value),
            final(self).asynchronous == (if flag == ORBITAL_FLAG_ASYNC {
                value
            } else {
                old(self).asynchronous
            }),
            final(self).zorder == (if flag == ORBITAL_FLAG_BACK {
                if value {
                    WindowZOrder::Back
                } else {
                    WindowZOrder::Normal
                }
            } else if flag == ORBITAL_FLAG_FRONT {
                if value {
                    WindowZOrder::Front
                } else {
                    WindowZOrder::Normal
                }
            } else {
                old(self).zorder
            }),
            final(self).hidden == (if flag == ORBITAL_FLAG_HIDDEN {
                value
            } else {
                old(self).hidden
            }),
            final(self).borderless == (if flag == ORBITAL_FLAG_BORDERLESS {
                value
            } else {
                old(self).borderless
            }),
            final(self).resizable == (if flag == ORBITAL_FLAG_RESIZABLE {
                value
            } else {
                old(self).resizable
            }),
            final(self).transparent == (if flag == ORBITAL_FLAG_TRANSPARENT {
                value
            } else {
                old(self).transparent
            }),
            final(self).unclosable == (if flag == ORBITAL_FLAG_UNCLOSABLE {
                value
            } else {
                old(self).unclosable
            }),
            final(self).x == old(self).x,
            final(self).y == old(self).y,
            final(self).scale == old(self).scale,
            final(self).title == old(self).title,
            final(self).restore == old(self).restore,
            final(self).events == old(self).events,
            final(self).maps == old(self).maps,
            final(self).wf() == old(self).wf(),
            final(self).image_width() == old(self).image_width(),
            final(self).image_height() == old(self).image_height(),
            final(self).image_pixels() == old(self).image_pixels(),
    {
        if flag == ORBITAL_FLAG_ASYNC {
            self.asynchronous = value;
        } else if flag == ORBITAL_FLAG_BACK {
            self.zorder = if value {
                WindowZOrder::Back
            } else {
                WindowZOrder::Normal
            };
        } else if flag == ORBITAL_FLAG_FRONT {
            self.zorder = if value {
                WindowZOrder::Front
            } else {
                WindowZOrder::Normal
            };
        } else if flag == ORBITAL_FLAG_HIDDEN {
            self.hidden = value;
        } else if flag == ORBITAL_FLAG_BORDERLESS {
            self.borderless = value;
        } else if flag == ORBITAL_FLAG_RESIZABLE {
            self.resizable = value;
        } else if flag == ORBITAL_FLAG_TRANSPARENT {
            self.transparent = value;
        } else if flag == ORBITAL_FLAG_UNCLOSABLE {
            self.unclosable = value;
        }
    }
}

} // verus!
